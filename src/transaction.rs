use vstd::prelude::*;

use crate::json::{
    find_key, lemma_members_at, lemma_object_view, members, members_wf, merge_json, merged, Json,
    JsonValue,
};
use crate::otp::{create_code_with_twofa_settings, is_code, key_decodes, totp_at, CodeError};
use crate::settings::{
    create_twofa_settings, lists, recognized, settings_from_members, settings_members,
    unrecognized_members, SettingsError, TwofaSettings,
};
use crate::text::is_confirmation;
use crate::storage::{FileReadError, WritePolicy};

verus! {

/// What a run of the program does to the store.
#[derive(Clone, Copy, Debug, PartialEq, Eq, Structural)]
pub enum Operation {
    /// Store the settings of one application.
    SetSecret,
    /// Print the current code of one application.
    GetCode,
    /// Create an empty store.
    CreateStorage,
}

/// Where a transaction stands.
#[derive(Clone, Copy, Debug, PartialEq, Eq, Structural)]
pub enum Phase {
    /// The encrypted store is to be decrypted into the plaintext file.
    Decrypt,
    /// The operation's own work on the plaintext document is to be done.
    Body,
    /// The plaintext file is to be encrypted back into the store.
    Encrypt,
    /// The plaintext file is to be deleted.
    Cleanup,
    /// Nothing is left to do.
    Done,
}

/// Why a transaction failed.
#[derive(Clone, Copy, Debug, PartialEq, Eq, Structural)]
pub enum Failure {
    Decryption,
    Encryption,
    /// The plaintext file exists but could not be read.
    Read,
    /// The plaintext document is not valid JSON.
    Parse,
    /// The plaintext file is missing although an encrypted store exists.
    Inconsistent,
    Write,
    Delete,
    /// No application was named.
    MissingApplication,
    Settings(SettingsError),
    Code(CodeError),
}

/// How a transaction ended.
#[derive(Clone, Copy, Debug, PartialEq, Eq, Structural)]
pub enum Outcome {
    Success,
    /// The user declined to overwrite.
    Declined,
    /// The requested application is not in the store.
    NotFound,
    Failed(Failure),
}

/// What became of the step that was last asked for.
#[derive(Clone, Copy, Debug, PartialEq, Eq, Structural)]
pub enum Event {
    Completed,
    Declined,
    NotFound,
    Failed(Failure),
}

/// A transaction on the store: decrypt, work on the plaintext, encrypt, delete the plaintext.
#[derive(Clone, Copy, Debug, PartialEq, Eq, Structural)]
pub struct Transaction {
    pub operation: Operation,
    pub phase: Phase,
    /// A plaintext file may exist that this transaction has yet to delete.
    pub plaintext: bool,
    pub outcome: Outcome,
}

/// The transaction before its first step.
pub open spec fn start(op: Operation) -> Transaction {
    Transaction {
        operation: op,
        phase: if op == Operation::CreateStorage {
            Phase::Body
        } else {
            Phase::Decrypt
        },
        plaintext: false,
        outcome: Outcome::Success,
    }
}

/// The transaction after `ev` was reported for the step it asked for.
///
/// A failed decryption ends it, as no plaintext exists. After the body, a completed step goes on
/// to encryption, and anything else goes straight to cleanup, except where no plaintext was made
/// (an initialisation the user declined). An encryption goes on to cleanup whatever its result,
/// and cleanup ends the transaction; a failed deletion is reported only where nothing failed
/// before it.
pub open spec fn next(t: Transaction, ev: Event) -> Transaction {
    match t.phase {
        Phase::Decrypt => if ev == Event::Completed {
            Transaction { phase: Phase::Body, plaintext: true, ..t }
        } else {
            Transaction { phase: Phase::Done, outcome: Outcome::Failed(Failure::Decryption), ..t }
        },
        Phase::Body => match ev {
            Event::Completed => Transaction { phase: Phase::Encrypt, plaintext: true, ..t },
            Event::Failed(f) => Transaction {
                phase: Phase::Cleanup,
                plaintext: true,
                outcome: Outcome::Failed(f),
                ..t
            },
            Event::Declined => Transaction {
                phase: if t.plaintext {
                    Phase::Cleanup
                } else {
                    Phase::Done
                },
                outcome: Outcome::Declined,
                ..t
            },
            Event::NotFound => Transaction {
                phase: if t.plaintext {
                    Phase::Cleanup
                } else {
                    Phase::Done
                },
                outcome: Outcome::NotFound,
                ..t
            },
        },
        Phase::Encrypt => if ev == Event::Completed {
            Transaction { phase: Phase::Cleanup, ..t }
        } else {
            Transaction {
                phase: Phase::Cleanup,
                outcome: Outcome::Failed(Failure::Encryption),
                ..t
            }
        },
        Phase::Cleanup => Transaction {
            phase: Phase::Done,
            plaintext: false,
            outcome: if ev != Event::Completed && t.outcome == Outcome::Success {
                Outcome::Failed(Failure::Delete)
            } else {
                t.outcome
            },
            ..t
        },
        Phase::Done => t,
    }
}

/// The transaction after the events `evs`, in order.
pub open spec fn run(t: Transaction, evs: Seq<Event>) -> Transaction
    decreases evs.len(),
{
    if evs.len() == 0 {
        t
    } else {
        run(next(t, evs[0]), evs.drop_first())
    }
}

/// What is true of a transaction at every step.
pub open spec fn safe(t: Transaction) -> bool {
    &&& (t.phase == Phase::Done ==> !t.plaintext)
    &&& (t.phase == Phase::Decrypt ==> !t.plaintext)
    &&& (t.phase == Phase::Encrypt ==> t.plaintext)
}

/// How many steps a transaction still takes at most.
pub open spec fn steps_left(p: Phase) -> nat {
    match p {
        Phase::Decrypt => 4,
        Phase::Body => 3,
        Phase::Encrypt => 2,
        Phase::Cleanup => 1,
        Phase::Done => 0,
    }
}

proof fn lemma_next_safe(t: Transaction, ev: Event)
    requires
        safe(t),
    ensures
        safe(next(t, ev)),
        t.phase != Phase::Done ==> steps_left(next(t, ev).phase) < steps_left(t.phase),
{
}

proof fn lemma_run_safe(t: Transaction, evs: Seq<Event>)
    requires
        safe(t),
    ensures
        safe(run(t, evs)),
        evs.len() >= steps_left(t.phase) ==> run(t, evs).phase == Phase::Done,
    decreases evs.len(),
{
    if evs.len() > 0 {
        lemma_next_safe(t, evs[0]);
        lemma_run_safe(next(t, evs[0]), evs.drop_first());
    }
}

/// Whatever each step reports, a transaction that has ended owes no deletion: every plaintext
/// file it made has gone through cleanup (a failed decryption makes none). Every transaction
/// ends after at most four steps.
pub proof fn lemma_transaction_leaves_no_plaintext(op: Operation, evs: Seq<Event>)
    ensures
        run(start(op), evs).phase == Phase::Done ==> !run(start(op), evs).plaintext,
        evs.len() >= 4 ==> run(start(op), evs).phase == Phase::Done,
{
    lemma_run_safe(start(op), evs);
}

/// A body the user declined is never followed by encryption, so the store keeps what it held.
/// The transaction ends at the latest one step later, with no plaintext left to delete, and
/// the program exits with status zero.
pub proof fn lemma_declined_keeps_store(t: Transaction, evs: Seq<Event>)
    requires
        t.phase == Phase::Body,
    ensures
        run(next(t, Event::Declined), evs).phase != Phase::Encrypt,
        run(next(t, Event::Declined), evs).outcome == Outcome::Declined,
        evs.len() >= 1 ==> run(next(t, Event::Declined), evs).phase == Phase::Done && !run(
            next(t, Event::Declined),
            evs,
        ).plaintext,
        !(run(next(t, Event::Declined), evs).outcome is Failed),
    decreases evs.len(),
{
    let u = next(t, Event::Declined);
    if evs.len() > 0 {
        assert(run(u, evs) == run(next(u, evs[0]), evs.drop_first()));
        assert(next(u, evs[0]).phase == Phase::Done);
        assert(!next(u, evs[0]).plaintext);
        assert(run(next(u, evs[0]), evs.drop_first()) == next(u, evs[0])) by {
            lemma_run_done(next(u, evs[0]), evs.drop_first());
        }
    }
}

proof fn lemma_run_done(t: Transaction, evs: Seq<Event>)
    requires
        t.phase == Phase::Done,
    ensures
        run(t, evs) == t,
    decreases evs.len(),
{
    if evs.len() > 0 {
        lemma_run_done(next(t, evs[0]), evs.drop_first());
    }
}

impl Transaction {
    pub fn new(op: Operation) -> (r: Self)
        ensures
            r == start(op),
    {
        Transaction {
            operation: op,
            phase: if op == Operation::CreateStorage {
                Phase::Body
            } else {
                Phase::Decrypt
            },
            plaintext: false,
            outcome: Outcome::Success,
        }
    }

    /// Takes in what became of the current step.
    pub fn advance(&mut self, ev: Event)
        ensures
            *final(self) == next(*old(self), ev),
    {
        match self.phase {
            Phase::Decrypt => {
                if ev == Event::Completed {
                    self.phase = Phase::Body;
                    self.plaintext = true;
                } else {
                    self.phase = Phase::Done;
                    self.outcome = Outcome::Failed(Failure::Decryption);
                }
            },
            Phase::Body => {
                match ev {
                    Event::Completed => {
                        self.phase = Phase::Encrypt;
                        self.plaintext = true;
                    },
                    Event::Failed(f) => {
                        self.phase = Phase::Cleanup;
                        self.plaintext = true;
                        self.outcome = Outcome::Failed(f);
                    },
                    Event::Declined => {
                        self.phase = if self.plaintext {
                            Phase::Cleanup
                        } else {
                            Phase::Done
                        };
                        self.outcome = Outcome::Declined;
                    },
                    Event::NotFound => {
                        self.phase = if self.plaintext {
                            Phase::Cleanup
                        } else {
                            Phase::Done
                        };
                        self.outcome = Outcome::NotFound;
                    },
                }
            },
            Phase::Encrypt => {
                self.phase = Phase::Cleanup;
                if ev != Event::Completed {
                    self.outcome = Outcome::Failed(Failure::Encryption);
                }
            },
            Phase::Cleanup => {
                self.phase = Phase::Done;
                self.plaintext = false;
                if ev != Event::Completed && self.outcome == Outcome::Success {
                    self.outcome = Outcome::Failed(Failure::Delete);
                }
            },
            Phase::Done => {},
        }
    }

    /// Whether the transaction has ended.
    pub fn is_done(&self) -> (r: bool)
        ensures
            r == (self.phase == Phase::Done),
    {
        self.phase == Phase::Done
    }
}

/// The process exit status for an outcome: zero unless something failed.
pub fn exit_code(outcome: Outcome) -> (r: i32)
    ensures
        r == (if outcome is Failed {
            1i32
        } else {
            0i32
        }),
{
    match outcome {
        Outcome::Failed(_) => 1,
        _ => 0,
    }
}

/// The text an empty document is written as.
pub const EMPTY_DOCUMENT: &'static str = "{}";

/// The document text a `SetSecret` works on, from what reading the plaintext file gave. A
/// missing plaintext file stands for an empty document unless an encrypted store exists.
pub fn document_text(read: Result<String, FileReadError>, store_exists: bool) -> (r: Result<
    String,
    Failure,
>)
    ensures
        match read {
            Ok(t) => r matches Ok(u) && u@ == t@,
            Err(FileReadError::NoContent) => r == Err::<String, Failure>(Failure::Read),
            Err(FileReadError::NoFile) => if store_exists {
                r == Err::<String, Failure>(Failure::Inconsistent)
            } else {
                r matches Ok(u) && u@ == EMPTY_DOCUMENT@
            },
        },
{
    match read {
        Ok(t) => Ok(t),
        Err(FileReadError::NoContent) => Err(Failure::Read),
        Err(FileReadError::NoFile) => {
            if store_exists {
                Err(Failure::Inconsistent)
            } else {
                Ok(EMPTY_DOCUMENT.to_owned())
            }
        },
    }
}

/// The settings stored for `app` in a document, if the document is an object whose member
/// `app` is an object.
pub open spec fn stored_application(doc: Json, app: Seq<char>) -> Option<Map<Seq<char>, Json>> {
    match doc {
        Json::Obj(m) => if m.contains_key(app) {
            match m[app] {
                Json::Obj(a) => Some(a),
                _ => None,
            }
        } else {
            None
        },
        _ => None,
    }
}

/// Whether the document already holds a non-null member `app`.
pub open spec fn configured(doc: Json, app: Seq<char>) -> bool {
    match doc {
        Json::Obj(m) => m.contains_key(app) && !(m[app] is Null),
        _ => false,
    }
}

/// Whether storing settings for `app` would overwrite some, so that the user must confirm.
pub fn needs_confirmation(doc: &JsonValue, app: &str) -> (r: bool)
    requires
        doc.wf(),
    ensures
        r == configured(doc@, app@),
{
    match doc {
        JsonValue::Object(e) => {
            proof {
                lemma_object_view(*e);
            }
            match find_key(e, app) {
                Some(i) => {
                    proof {
                        lemma_members_at(e@, i as int);
                    }
                    !matches!(e[i].1, JsonValue::Null)
                },
                None => false,
            }
        },
        _ => false,
    }
}

/// The patch that stores `s` as the settings of `app`.
pub open spec fn settings_patch(app: Seq<char>, s: crate::settings::SettingsModel) -> Json {
    Json::Obj(map![app => Json::Obj(settings_members(s))])
}

/// Stores `settings` in the document as the settings of `app`, by merging.
pub fn apply_settings(doc: &mut JsonValue, app: String, settings: &TwofaSettings)
    requires
        old(doc).wf(),
        settings@.complete(),
    ensures
        final(doc).wf(),
        final(doc)@ == merged(old(doc)@, settings_patch(app@, settings@)),
{
    let value = settings.to_json();
    let ghost k = app@;
    let mut e: Vec<(String, JsonValue)> = Vec::new();
    e.push((app, value));
    proof {
        assert(members_wf(e@));
        lemma_object_view(e);
        lemma_members_at(e@, 0);
        assert(members(e@) =~= map![k => Json::Obj(settings_members(settings@))]);
    }
    merge_json(doc, JsonValue::Object(e));
}

/// What a `SetSecret` body does next with its document.
#[derive(Clone, Copy, Debug, PartialEq, Eq, Structural)]
pub enum SetStep {
    /// The application is configured already: the user must be asked before overwriting.
    Ask,
    /// The user declined; the document is left as it was.
    Declined,
    /// The settings were merged in; the document is to be written.
    Write,
}

/// One step of a `SetSecret` body on the parsed document. Where `app` is configured already,
/// nothing is changed until an answer is given, and only the answer "y" lets the settings be
/// merged in.
pub fn set_document(
    doc: &mut JsonValue,
    app: String,
    settings: &TwofaSettings,
    answer: Option<&str>,
) -> (r: SetStep)
    requires
        old(doc).wf(),
        settings@.complete(),
    ensures
        final(doc).wf(),
        configured(old(doc)@, app@) && answer is None ==> r == SetStep::Ask && *final(doc)
            == *old(doc),
        configured(old(doc)@, app@) && (answer matches Some(a) && a@ != "y"@) ==> r
            == SetStep::Declined && *final(doc) == *old(doc),
        !configured(old(doc)@, app@) || (answer matches Some(a) && a@ == "y"@) ==> r
            == SetStep::Write && final(doc)@ == merged(old(doc)@, settings_patch(app@, settings@)),
{
    if needs_confirmation(doc, app.as_str()) {
        match answer {
            None => return SetStep::Ask,
            Some(a) => {
                if !is_confirmation(a) {
                    return SetStep::Declined;
                }
            },
        }
    }
    apply_settings(doc, app, settings);
    SetStep::Write
}

/// The members of `app`'s stored settings that no setting reads, to be reported.
pub fn unrecognized_settings(doc: &JsonValue, app: &str) -> (r: Vec<String>)
    requires
        doc.wf(),
    ensures
        stored_application(doc@, app@) is None ==> r.len() == 0,
        stored_application(doc@, app@) matches Some(m) ==> forall|k: Seq<char>|
            #[trigger] lists(r@, k) <==> (m.contains_key(k) && !recognized(k)),
{
    match doc {
        JsonValue::Object(e) => {
            proof {
                lemma_object_view(*e);
            }
            match find_key(e, app) {
                Some(i) => {
                    proof {
                        lemma_members_at(e@, i as int);
                        assert(e@[i as int].1.wf());
                    }
                    match &e[i].1 {
                        JsonValue::Object(a) => {
                            proof {
                                lemma_object_view(*a);
                                assert(members_wf(a@));
                            }
                            unrecognized_members(a)
                        },
                        _ => Vec::new(),
                    }
                },
                None => Vec::new(),
            }
        },
        _ => Vec::new(),
    }
}

/// The current code of `app` in the document: none where the document holds no settings
/// object for it, an error where the stored settings are invalid or give no code.
pub fn code_for_application(doc: JsonValue, app: &str) -> (r: Result<Option<String>, Failure>)
    requires
        doc.wf(),
    ensures
        stored_application(doc@, app@) is None ==> r == Ok::<Option<String>, Failure>(None),
        stored_application(doc@, app@) matches Some(m) ==> match settings_from_members(m) {
            Err(e) => r == Err::<Option<String>, Failure>(Failure::Settings(e)),
            Ok(s) => if s.window->0 > 0 && key_decodes(s.secret->0, s.encoding->0) {
                r matches Ok(Some(c)) && is_code(c@) && (exists|t: nat|
                    c@ == #[trigger] totp_at(
                        s.secret->0,
                        s.encoding->0,
                        s.hash->0,
                        s.window->0,
                        t,
                    ))
            } else {
                r == Err::<Option<String>, Failure>(Failure::Code(CodeError::InvalidParameters))
            },
        },
{
    let mut e = match doc {
        JsonValue::Object(e) => e,
        _ => return Ok(None),
    };
    proof {
        lemma_object_view(e);
    }
    let i = match find_key(&e, app) {
        Some(i) => i,
        None => return Ok(None),
    };
    proof {
        lemma_members_at(e@, i as int);
    }
    let ghost entry = e@[i as int];
    assert(entry.1.wf());
    let (_, value) = e.remove(i);
    assert(value == entry.1);
    let a = match value {
        JsonValue::Object(a) => a,
        _ => return Ok(None),
    };
    proof {
        lemma_object_view(a);
    }
    let settings = match create_twofa_settings(Some(a)) {
        Ok(s) => s,
        Err(err) => return Err(Failure::Settings(err)),
    };
    match create_code_with_twofa_settings(&settings) {
        Ok(c) => Ok(Some(c)),
        Err(err) => Err(Failure::Code(err)),
    }
}

/// How `CreateStorage` writes the empty document: over an existing store only once the user has
/// confirmed (none where they declined), and only where no plaintext file is there otherwise.
pub fn init_policy(store_exists: bool, confirmed: bool) -> (r: Option<WritePolicy>)
    ensures
        r == (if !store_exists {
            Some(WritePolicy::RequireAbsent)
        } else if confirmed {
            Some(WritePolicy::ForceOverwrite)
        } else {
            None
        }),
{
    if !store_exists {
        Some(WritePolicy::RequireAbsent)
    } else if confirmed {
        Some(WritePolicy::ForceOverwrite)
    } else {
        None
    }
}

} // verus!
