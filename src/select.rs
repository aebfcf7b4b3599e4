use vstd::prelude::*;

verus! {

/// The log format that one invocation parses.
#[derive(PartialEq, Eq, Structural, Clone, Copy, Debug)]
pub enum LogFormat {
    Laravel,
    Apache,
    Access,
}

/// Why no format could be selected.
#[derive(PartialEq, Eq, Structural, Clone, Copy, Debug)]
pub enum UsageError {
    /// None of the format selectors was given.
    NoFormat,
    /// More than one format selector was given.
    ConflictingFormats,
}

/// How many of the three selectors are set.
pub open spec fn selected_count(laravel: bool, apache: bool, access: bool) -> int {
    (if laravel { 1int } else { 0int }) + (if apache { 1int } else { 0int }) + (if access {
        1int
    } else {
        0int
    })
}

/// Picks the one format whose selector is set. Two or more selectors set at
/// once are rejected, as is none at all; nothing is parsed either way.
pub fn select_format(laravel: bool, apache: bool, access: bool) -> (r: Result<
    LogFormat,
    UsageError,
>)
    ensures
        selected_count(laravel, apache, access) == 0 <==> r == Err::<LogFormat, UsageError>(
            UsageError::NoFormat,
        ),
        selected_count(laravel, apache, access) > 1 <==> r == Err::<LogFormat, UsageError>(
            UsageError::ConflictingFormats,
        ),
        r == Ok::<LogFormat, UsageError>(LogFormat::Laravel) <==> (laravel && !apache && !access),
        r == Ok::<LogFormat, UsageError>(LogFormat::Apache) <==> (!laravel && apache && !access),
        r == Ok::<LogFormat, UsageError>(LogFormat::Access) <==> (!laravel && !apache && access),
{
    if (laravel && apache) || (laravel && access) || (apache && access) {
        Err(UsageError::ConflictingFormats)
    } else if laravel {
        Ok(LogFormat::Laravel)
    } else if apache {
        Ok(LogFormat::Apache)
    } else if access {
        Ok(LogFormat::Access)
    } else {
        Err(UsageError::NoFormat)
    }
}

} // verus!
