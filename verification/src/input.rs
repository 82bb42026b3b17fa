//! The parts of the statusline input that hold no fractions, and the
//! token count of the current context.

use vstd::prelude::*;

verus! {

/// The model in use.
pub struct Model {
    pub id: Option<String>,
    pub display_name: Option<String>,
}

/// The workspace directories.
pub struct Workspace {
    pub current_dir: Option<String>,
    pub project_dir: Option<String>,
}

/// The output style.
pub struct OutputStyle {
    pub name: Option<String>,
}

/// The token counts of the current context.
pub struct CurrentUsage {
    pub input_tokens: Option<u64>,
    pub output_tokens: Option<u64>,
    pub cache_creation_input_tokens: Option<u64>,
    pub cache_read_input_tokens: Option<u64>,
}

/// A count, zero when absent.
pub open spec fn count_or_zero(c: Option<u64>) -> nat {
    match c {
        Some(v) => v as nat,
        None => 0,
    }
}

/// The tokens in the current context: input, output, cache creation and
/// cache reads, absent counts being zero.
pub open spec fn usage_total(u: CurrentUsage) -> nat {
    count_or_zero(u.input_tokens) + count_or_zero(u.output_tokens)
        + count_or_zero(u.cache_creation_input_tokens) + count_or_zero(u.cache_read_input_tokens)
}

impl CurrentUsage {
    /// The tokens in the current context; none when the sum does not fit in
    /// `u64`.
    pub fn total(&self) -> (res: Option<u64>)
        ensures
            match res {
                Some(t) => t == usage_total(*self),
                None => usage_total(*self) > u64::MAX,
            },
    {
        let a = match self.input_tokens { Some(v) => v, None => 0 };
        let b = match self.output_tokens { Some(v) => v, None => 0 };
        let c = match self.cache_creation_input_tokens { Some(v) => v, None => 0 };
        let d = match self.cache_read_input_tokens { Some(v) => v, None => 0 };
        let ab = match a.checked_add(b) { Some(x) => x, None => return None };
        let abc = match ab.checked_add(c) { Some(x) => x, None => return None };
        abc.checked_add(d)
    }
}

} // verus!
