//! The text pieces of a rate-limit window, put together.

use vstd::prelude::*;

verus! {

/// The rendered pieces of a rate-limit window.
pub struct RateParts {
    pub bar: String,
    pub used_percent_str: String,
    pub percent_delta: String,
    pub reset_str: String,
    pub reset_only: String,
    pub time_delta_only: String,
    pub composite: String,
}

/// The reset part of a composite: a space, the time to the reset and, in
/// brackets, its difference from the expected time; nothing without a reset.
pub open spec fn reset_text(reset: Option<(Seq<char>, Seq<char>)>) -> Seq<char> {
    match reset {
        Some((dur, td)) => seq![' '] + dur + seq!['('] + td + seq![')'],
        None => Seq::empty(),
    }
}

/// The composite of a window: `[bar] used(delta)` and the reset part.
pub open spec fn composite_text(
    bar: Seq<char>,
    used: Seq<char>,
    delta: Seq<char>,
    reset: Option<(Seq<char>, Seq<char>)>,
) -> Seq<char> {
    seq!['['] + bar + seq![']', ' '] + used + seq!['('] + delta + seq![')'] + reset_text(reset)
}

impl RateParts {
    /// Puts the pieces of a window together: `reset` holds the time to the
    /// reset and its difference from the expected time, when the reset time
    /// is known.
    pub fn assemble(
        bar: String,
        used_percent_str: String,
        percent_delta: String,
        reset: Option<(String, String)>,
    ) -> (res: RateParts)
        ensures
            res.bar@ == bar@,
            res.used_percent_str@ == used_percent_str@,
            res.percent_delta@ == percent_delta@,
            res.reset_str@ == reset_text(match reset { Some((d, t)) => Some((d@, t@)), None => None }),
            res.reset_only@ == match reset { Some((d, t)) => d@, None => Seq::<char>::empty() },
            res.time_delta_only@ == match reset { Some((d, t)) => t@, None => Seq::<char>::empty() },
            res.composite@ == composite_text(bar@, used_percent_str@, percent_delta@,
                match reset { Some((d, t)) => Some((d@, t@)), None => None }),
    {
        let (reset_str, reset_only, time_delta_only) = match reset {
            Some((dur, td)) => {
                let mut s = String::new();
                s.push(' ');
                s.append(dur.as_str());
                s.push('(');
                s.append(td.as_str());
                s.push(')');
                assert(s@ =~= seq![' '] + dur@ + seq!['('] + td@ + seq![')']);
                (s, dur, td)
            },
            None => (String::new(), String::new(), String::new()),
        };
        let mut composite = String::new();
        composite.push('[');
        composite.append(bar.as_str());
        composite.push(']');
        composite.push(' ');
        composite.append(used_percent_str.as_str());
        composite.push('(');
        composite.append(percent_delta.as_str());
        composite.push(')');
        composite.append(reset_str.as_str());
        assert(composite@ =~= composite_text(bar@, used_percent_str@, percent_delta@,
            match reset { Some((d, t)) => Some((d@, t@)), None => None }));
        RateParts {
            bar,
            used_percent_str,
            percent_delta,
            reset_str,
            reset_only,
            time_delta_only,
            composite,
        }
    }
}

} // verus!
