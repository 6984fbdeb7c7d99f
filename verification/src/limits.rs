//! Reading a configured upload size limit: a number gives the limit,
//! an absent or unusable value names which fallback applies.

use vstd::prelude::*;

verus! {

/// A configuration value that may stand for a byte count. The error
/// names the fallback: `disabled` switches the limit off, `default`
/// asks for the built-in one.
pub trait ToUsize {
    /// What this value converts to.
    spec fn to_usize_spec(&self) -> Result<usize, &'static str>;

    fn to_usize(&self) -> (r: Result<usize, &'static str>)
        ensures
            r == self.to_usize_spec(),
    ;
}

impl ToUsize for u64 {
    open spec fn to_usize_spec(&self) -> Result<usize, &'static str> {
        Ok(*self as usize)
    }

    fn to_usize(&self) -> (r: Result<usize, &'static str>)
        ensures
            r == self.to_usize_spec(),
    {
        Ok(*self as usize)
    }
}

/// Reads the configured upload limit; an absent value asks for the
/// default.
pub fn parse_upload_limit<T: ToUsize>(limit_val: &Option<T>) -> (r: Result<usize, &'static str>)
    ensures
        match limit_val {
            Some(v) => r == v.to_usize_spec(),
            None => match r {
                Err(m) => m@ == "default"@,
                Ok(_) => false,
            },
        },
{
    match limit_val {
        Some(v) => v.to_usize(),
        None => Err("default"),
    }
}

} // verus!
