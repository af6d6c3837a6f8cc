use vstd::prelude::*;

verus! {

/// Why a file could not be read.
#[derive(Clone, Copy, Debug, PartialEq, Eq, Structural)]
pub enum FileReadError {
    NoFile,
    NoContent,
}

/// Why a file could not be written.
#[derive(Clone, Copy, Debug, PartialEq, Eq, Structural)]
pub enum FileSaveError {
    NoSave,
    NoCreate,
    AlreadyExists,
}

/// Why a file could not be removed.
#[derive(Clone, Copy, Debug, PartialEq, Eq, Structural)]
pub enum FileDeleteError {
    FileExists,
    FileNotFound,
    FileDeleteError,
}

/// Whether a write may replace a file that is already there.
#[derive(Clone, Copy, Debug, PartialEq, Eq, Structural)]
pub enum WritePolicy {
    RequireAbsent,
    ForceOverwrite,
}

/// Where the store lives: its directory, the encrypted file and the plaintext scratch file.
pub struct Storage {
    pub dir: String,
    pub en_file: String,
    pub de_file: String,
}

impl Storage {
    pub fn new(dir: String, en_file: String, de_file: String) -> (r: Self)
        ensures
            r.dir@ == dir@,
            r.en_file@ == en_file@,
            r.de_file@ == de_file@,
    {
        Storage { dir, en_file, de_file }
    }
}

/// The store's directory under a home directory.
pub open spec fn store_dir(home: Seq<char>) -> Seq<char> {
    home + "/.twofa"@
}

/// The store's paths under the given home directory.
pub fn get_storage_path(home: &str) -> (r: Storage)
    ensures
        r.dir@ == store_dir(home@),
        r.de_file@ == store_dir(home@) + "/buffer.storage"@,
        r.en_file@ == store_dir(home@) + "/twofa.storage"@,
{
    let dir = home.to_owned().concat("/.twofa");
    let de_file = dir.as_str().to_owned().concat("/buffer.storage");
    let en_file = dir.as_str().to_owned().concat("/twofa.storage");
    Storage::new(dir, en_file, de_file)
}

/// Whether a write under `policy` may go ahead on a target that does or does not exist.
pub fn check_write(target_exists: bool, policy: WritePolicy) -> (r: Result<(), FileSaveError>)
    ensures
        r is Err <==> target_exists && policy == WritePolicy::RequireAbsent,
        r is Err ==> r == Err::<(), FileSaveError>(FileSaveError::AlreadyExists),
{
    if target_exists && policy == WritePolicy::RequireAbsent {
        Err(FileSaveError::AlreadyExists)
    } else {
        Ok(())
    }
}

} // verus!
