use vstd::prelude::*;

verus! {

/// The broad class of an application error.
#[derive(Clone, Copy, Debug, PartialEq, Eq)]
pub enum AppErrorKind {
    Validation,
    Configuration,
    Conflict,
    NotFound,
    Storage,
    Remote,
    Encryption,
    Internal,
}

/// The result is the given error.
pub open spec fn fails_with<T>(
    r: Result<T, AppError>,
    code: &'static str,
    translation_key: &'static str,
    kind: AppErrorKind,
) -> bool {
    match r {
        Ok(_) => false,
        Err(e) => e.has(code, translation_key, kind),
    }
}

/// A stable, translatable application error: a machine code, the key of its
/// user-facing message and its kind.
#[derive(Clone, Copy, Debug)]
pub struct AppError {
    pub code: &'static str,
    pub translation_key: &'static str,
    pub kind: AppErrorKind,
}

impl AppError {
    pub open spec fn has(self, code: &'static str, translation_key: &'static str, kind: AppErrorKind) -> bool {
        &&& self.code@ == code@
        &&& self.translation_key@ == translation_key@
        &&& self.kind == kind
    }

    pub fn new(code: &'static str, translation_key: &'static str, kind: AppErrorKind) -> (r: Self)
        ensures
            r.code == code,
            r.translation_key == translation_key,
            r.kind == kind,
    {
        AppError { code, translation_key, kind }
    }

    pub fn code(&self) -> (r: &'static str)
        ensures
            r == self.code,
    {
        self.code
    }

    pub fn translation_key(&self) -> (r: &'static str)
        ensures
            r == self.translation_key,
    {
        self.translation_key
    }
}

} // verus!
