use vstd::prelude::*;

verus! {

/// Selection and repetition settings for one benchmark session: which
/// strategies to run, how often to repeat each, and whether to sample
/// outputs and check them against the in-memory reference.
#[derive(Clone, Copy, Debug, PartialEq, Eq, Structural)]
pub struct RunConfig {
    pub log2_size: u32,
    pub verbose: bool,
    pub check_work: bool,
    pub times: usize,
    pub in_memory: bool,
    pub mmap: bool,
    pub join: bool,
    pub on_disk: bool,
    pub buff_on_disk: bool,
    pub all: bool,
}

/// A configuration rejected before any strategy runs.
#[derive(Clone, Copy, Debug, PartialEq, Eq, Structural)]
pub enum ConfigError {
    /// The repeat count must be positive.
    NonPositiveTimes,
    /// Checking work needs the in-memory reference strategy enabled.
    CheckWorkWithoutReference,
}

/// The `all` switch flips every strategy flag, so that selecting `all`
/// together with one strategy runs every strategy except that one.
pub open spec fn toggled_spec(c: RunConfig) -> RunConfig {
    if c.all {
        RunConfig {
            in_memory: !c.in_memory,
            mmap: !c.mmap,
            on_disk: !c.on_disk,
            buff_on_disk: !c.buff_on_disk,
            join: !c.join,
            ..c
        }
    } else {
        c
    }
}

/// Validate and normalize a configuration before the session starts.
///
/// The repeat count is checked first; then the `all` toggle is applied;
/// then a requested work-check without the in-memory reference strategy
/// (the ground truth the others are compared against) is rejected.
pub fn normalize_config(c: &RunConfig) -> (r: Result<RunConfig, ConfigError>)
    ensures
        c.times == 0 ==> r == Err::<RunConfig, ConfigError>(ConfigError::NonPositiveTimes),
        c.times > 0 && c.check_work && !toggled_spec(*c).in_memory ==> r == Err::<
            RunConfig,
            ConfigError,
        >(ConfigError::CheckWorkWithoutReference),
        c.times > 0 && (!c.check_work || toggled_spec(*c).in_memory) ==> r == Ok::<
            RunConfig,
            ConfigError,
        >(toggled_spec(*c)),
{
    if c.times == 0 {
        return Err(ConfigError::NonPositiveTimes);
    }
    let mut t: RunConfig = *c;
    if c.all {
        t.in_memory = !t.in_memory;
        t.mmap = !t.mmap;
        t.on_disk = !t.on_disk;
        t.buff_on_disk = !t.buff_on_disk;
        t.join = !t.join;
    }
    if c.check_work && !t.in_memory {
        return Err(ConfigError::CheckWorkWithoutReference);
    }
    Ok(t)
}

/// Combine a transform result with a scratch-cleanup result so that a
/// cleanup failure never masks an earlier transform failure: the
/// transform's error is surfaced first, and a cleanup error surfaces
/// only when the transform itself succeeded.
pub fn surface_first_error<T, E>(transform: Result<T, E>, cleanup: Result<(), E>) -> (r: Result<
    T,
    E,
>)
    ensures
        transform is Err ==> r == transform,
        transform is Ok && cleanup is Err ==> r == Err::<T, E>(cleanup->Err_0),
        transform is Ok && cleanup is Ok ==> r == transform,
{
    match transform {
        Err(e) => Err(e),
        Ok(v) => match cleanup {
            Err(e) => Err(e),
            Ok(_) => Ok(v),
        },
    }
}

} // verus!
