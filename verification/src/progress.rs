use vstd::prelude::*;

use crate::text::all_digits;
use crate::text::parse_u64;
use crate::text::spec_dec_value;
use crate::text::spec_first_index_of;
use crate::text::find_first;
use crate::text::str_eq;

verus! {

/// One decoded unit of the transcoder's progress stream: the cumulative
/// output time produced so far, or the end of the run.
#[derive(Clone, Copy, Debug, PartialEq, Eq, Structural)]
pub enum ProgressRecord {
    /// The run goes on; the payload is the cumulative output time in
    /// milliseconds.
    Continue(u64),
    /// The run is over; this is always the final record.
    End,
}

/// The whitespace the progress stream may carry around its tokens.
pub open spec fn is_space(c: char) -> bool {
    c == ' ' || c == '\t' || c == '\r' || c == '\n'
}

/// The sequence without its trailing whitespace.
pub open spec fn spec_trim_end(s: Seq<char>) -> Seq<char>
    decreases s.len(),
{
    if s.len() > 0 && is_space(s.last()) {
        spec_trim_end(s.drop_last())
    } else {
        s
    }
}

/// The sequence without its leading whitespace.
pub open spec fn spec_trim_start(s: Seq<char>) -> Seq<char>
    decreases s.len(),
{
    if s.len() > 0 && is_space(s[0]) {
        spec_trim_start(s.drop_first())
    } else {
        s
    }
}

/// The sequence without leading and trailing whitespace.
pub open spec fn spec_trim(s: Seq<char>) -> Seq<char> {
    spec_trim_start(spec_trim_end(s))
}

/// Trimming the end keeps a prefix whose last character, if any, is not
/// whitespace.
pub proof fn lemma_trim_end_struct(s: Seq<char>)
    ensures
        spec_trim_end(s).len() <= s.len(),
        forall|i: int| 0 <= i < spec_trim_end(s).len() ==> #[trigger] spec_trim_end(s)[i] == s[i],
        spec_trim_end(s).len() > 0 ==> !is_space(spec_trim_end(s).last()),
    decreases s.len(),
{
    if s.len() > 0 && is_space(s.last()) {
        lemma_trim_end_struct(s.drop_last());
    }
}

/// Trimming the start keeps a suffix whose first character, if any, is not
/// whitespace.
pub proof fn lemma_trim_start_struct(s: Seq<char>)
    ensures
        spec_trim_start(s).len() <= s.len(),
        forall|i: int|
            0 <= i < spec_trim_start(s).len() ==> #[trigger] spec_trim_start(s)[i] == s[s.len()
                - spec_trim_start(s).len() + i],
        spec_trim_start(s).len() > 0 ==> !is_space(spec_trim_start(s)[0]),
    decreases s.len(),
{
    if s.len() > 0 && is_space(s[0]) {
        lemma_trim_start_struct(s.drop_first());
    }
}

/// The index where the trailing whitespace begins.
fn scan_trim_end(s: &str) -> (e: usize)
    ensures
        e <= s@.len(),
        spec_trim_end(s@) == s@.take(e as int),
{
    let n: usize = s.unicode_len();
    let mut e: usize = n;
    proof {
        assert(s@.take(n as int) =~= s@);
    }
    while e > 0
        invariant
            n == s@.len(),
            0 <= e <= n,
            spec_trim_end(s@) == spec_trim_end(s@.take(e as int)),
        decreases e,
    {
        let c: char = s.get_char(e - 1);
        proof {
            assert(s@.take(e as int).drop_last() =~= s@.take(e - 1));
            assert(s@.take(e as int).last() == s@[e - 1]);
        }
        if !(c == ' ' || c == '\t' || c == '\r' || c == '\n') {
            proof {
                assert(spec_trim_end(s@.take(e as int)) == s@.take(e as int));
            }
            return e;
        }
        e = e - 1;
    }
    proof {
        assert(spec_trim_end(s@) =~= s@.take(0));
    }
    0
}

/// Trims ASCII whitespace from both ends.
fn trim_str<'a>(s: &'a str) -> (r: &'a str)
    ensures
        r@ == spec_trim(s@),
{
    let e: usize = scan_trim_end(s);
    let ghost t = spec_trim_end(s@);
    let mut b: usize = 0;
    proof {
        assert(t.skip(0) =~= t);
    }
    while b < e
        invariant
            e <= s@.len(),
            0 <= b <= e,
            t == spec_trim_end(s@),
            t == s@.take(e as int),
            spec_trim_start(t) == spec_trim_start(t.skip(b as int)),
        decreases e - b,
    {
        let c: char = s.get_char(b);
        proof {
            assert(t.skip(b as int).drop_first() =~= t.skip(b + 1));
            assert(t.skip(b as int)[0] == s@[b as int]);
        }
        if !(c == ' ' || c == '\t' || c == '\r' || c == '\n') {
            let r: &str = s.substring_char(b, e);
            proof {
                assert(r@ =~= t.skip(b as int));
                assert(spec_trim_start(t.skip(b as int)) == t.skip(b as int));
            }
            return r;
        }
        b = b + 1;
    }
    let r: &str = s.substring_char(e, e);
    proof {
        assert(r@ =~= t.skip(e as int));
        assert(t.skip(e as int) =~= Seq::<char>::empty());
    }
    r
}

/// The incremental decoder of the progress stream.  Lines arrive one at a
/// time; value lines accumulate into the pending record, and a progress
/// line closes and emits it.  Anything unreadable is absorbed silently and
/// surfaces as no record at all.
pub struct ProgressParser {
    /// The output time gathered from the value lines seen since the last
    /// emitted record.
    pub pending_ms: Option<u64>,
}

/// What one line does to the decoder: the new pending time and the record
/// the line closes, if any.  The line is trimmed; a line without a key and
/// value separator, with an unknown key, with an unreadable time value or
/// with an unknown progress word changes nothing.
pub open spec fn spec_feed(pre: Option<u64>, l: Seq<char>) -> (Option<u64>, Option<
    ProgressRecord,
>) {
    let t = spec_trim(l);
    let eq = spec_first_index_of(t, '=', 0);
    if eq == -1 {
        (pre, None::<ProgressRecord>)
    } else {
        let k = spec_trim_end(t.take(eq));
        let v = spec_trim_start(t.skip(eq + 1));
        if k == "out_time_us"@ {
            if v.len() > 0 && all_digits(v) && spec_dec_value(v) <= u64::MAX {
                (Some((spec_dec_value(v) / 1000) as u64), None::<ProgressRecord>)
            } else {
                (pre, None::<ProgressRecord>)
            }
        } else if k == "progress"@ {
            if v == "continue"@ {
                (
                    None::<u64>,
                    Some(
                        ProgressRecord::Continue(
                            match pre {
                                Some(ms) => ms,
                                None => 0,
                            },
                        ),
                    ),
                )
            } else if v == "end"@ {
                (None::<u64>, Some(ProgressRecord::End))
            } else {
                (pre, None::<ProgressRecord>)
            }
        } else {
            (pre, None::<ProgressRecord>)
        }
    }
}

impl ProgressParser {
    /// A decoder with nothing pending, for the start of one run.
    pub fn new() -> (r: ProgressParser)
        ensures
            r.pending_ms is None,
    {
        ProgressParser { pending_ms: None }
    }

    /// Decodes one line of the progress stream.
    pub fn feed_line(&mut self, line: &str) -> (r: Option<ProgressRecord>)
        ensures
            (final(self).pending_ms, r) == spec_feed(old(self).pending_ms, line@),
    {
        let t: &str = trim_str(line);
        let eq: usize = match find_first(t, '=') {
            Some(k) => k,
            None => {
                return None;
            },
        };
        let m: usize = t.unicode_len();
        let key: &str = trim_str(t.substring_char(0, eq));
        let value: &str = trim_str(t.substring_char(eq + 1, m));
        proof {
            let ghost y = spec_trim_end(line@);
            lemma_trim_end_struct(line@);
            lemma_trim_start_struct(y);
            assert(t@.len() > 0);
            assert(!is_space(t@[0]));
            if t@.len() > 0 {
                assert(t@.last() == y.last());
                assert(!is_space(t@.last()));
            }
            // the key split off a trimmed line has no leading space left
            let ghost kp = t@.take(eq as int);
            lemma_trim_end_struct(kp);
            let ghost z = spec_trim_end(kp);
            if z.len() > 0 {
                assert(z[0] == kp[0]);
                assert(kp[0] == t@[0]);
                assert(!is_space(z[0]));
            }
            assert(spec_trim(kp) == spec_trim_end(kp));
            // the value split off a trimmed line has no trailing space left
            let ghost vp = t@.skip(eq + 1);
            if vp.len() > 0 {
                assert(vp[vp.len() - 1] == t@[t@.len() - 1]);
                assert(!is_space(vp.last()));
            }
            assert(spec_trim_end(vp) == vp);
            assert(spec_trim(vp) == spec_trim_start(vp));
        }
        if str_eq(key, "out_time_us") {
            match parse_u64(value) {
                Some(us) => {
                    self.pending_ms = Some(us / 1000);
                },
                None => {},
            }
            None
        } else if str_eq(key, "progress") {
            if str_eq(value, "continue") {
                let ms: u64 = match self.pending_ms {
                    Some(ms) => ms,
                    None => 0,
                };
                self.pending_ms = None;
                Some(ProgressRecord::Continue(ms))
            } else if str_eq(value, "end") {
                self.pending_ms = None;
                Some(ProgressRecord::End)
            } else {
                None
            }
        } else {
            None
        }
    }
}

} // verus!
