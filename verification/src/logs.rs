//! Folding a sequence of timestamped log lines into one interval-bounded
//! chunk.
//!
//! A timestamp is an integer instant (for example nanoseconds since an
//! epoch); only its ordering matters here. The empty sequence yields the
//! sentinel pair (`i64::MAX` as `since`, `i64::MIN` as `until`), which
//! callers must read as "no data", not as an interval.
use vstd::prelude::*;

verus! {

/// The earliest timestamp in the lines, `i64::MAX` when there is none.
pub open spec fn spec_since(s: Seq<(i64, String)>) -> int
    decreases s.len(),
{
    if s.len() == 0 {
        i64::MAX as int
    } else {
        let rest = spec_since(s.drop_last());
        if rest > s.last().0 {
            s.last().0 as int
        } else {
            rest
        }
    }
}

/// The latest timestamp in the lines, `i64::MIN` when there is none.
pub open spec fn spec_until(s: Seq<(i64, String)>) -> int
    decreases s.len(),
{
    if s.len() == 0 {
        i64::MIN as int
    } else {
        let rest = spec_until(s.drop_last());
        if rest < s.last().0 {
            s.last().0 as int
        } else {
            rest
        }
    }
}

/// All the lines' texts, concatenated in input order with nothing inserted.
pub open spec fn spec_log_text(s: Seq<(i64, String)>) -> Seq<char>
    decreases s.len(),
{
    if s.len() == 0 {
        Seq::empty()
    } else {
        spec_log_text(s.drop_last()) + s.last().1@
    }
}

/// One merged chunk of log lines: the interval they cover and their text.
#[derive(Clone, Debug, PartialEq)]
pub struct LogChunk {
    pub since: i64,
    pub until: i64,
    pub log_lines: String,
}

impl LogChunk {
    pub fn since(&self) -> (r: i64)
        ensures
            r == self.since,
    {
        self.since
    }

    pub fn until(&self) -> (r: i64)
        ensures
            r == self.until,
    {
        self.until
    }

    pub fn log_lines(&self) -> (r: &String)
        ensures
            r == &self.log_lines,
    {
        &self.log_lines
    }

    /// Folds the lines into one chunk: `since` is the minimum timestamp,
    /// `until` the maximum, and the text the concatenation in input order.
    pub fn from(logs: Vec<(i64, String)>) -> (r: LogChunk)
        ensures
            r.since == spec_since(logs@),
            r.until == spec_until(logs@),
            r.log_lines@ == spec_log_text(logs@),
    {
        let mut since: i64 = i64::MAX;
        let mut until: i64 = i64::MIN;
        let mut text = String::new();
        let mut i: usize = 0;
        let n = logs.len();
        proof {
            assert(logs@.take(0) =~= Seq::<(i64, String)>::empty());
        }
        while i < n
            invariant
                i <= n,
                n == logs@.len(),
                since == spec_since(logs@.take(i as int)),
                until == spec_until(logs@.take(i as int)),
                text@ == spec_log_text(logs@.take(i as int)),
            decreases n - i,
        {
            proof {
                assert(logs@.take(i + 1).drop_last() =~= logs@.take(i as int));
                assert(logs@.take(i + 1).last() == logs@[i as int]);
            }
            let ts = logs[i].0;
            if ts < since {
                since = ts;
            }
            if ts > until {
                until = ts;
            }
            text.append(logs[i].1.as_str());
            i += 1;
        }
        proof {
            assert(logs@.take(n as int) =~= logs@);
        }
        LogChunk { since, until, log_lines: text }
    }
}

/// For a non-empty sequence the fold really yields its minimum and maximum:
/// `since` bounds every timestamp from below and is attained, `until` bounds
/// every timestamp from above and is attained, and the two therefore nest.
pub proof fn lemma_log_chunk_interval(s: Seq<(i64, String)>)
    requires
        s.len() > 0,
    ensures
        forall|i: int| 0 <= i < s.len() ==> spec_since(s) <= (#[trigger] s[i]).0,
        forall|i: int| 0 <= i < s.len() ==> spec_until(s) >= (#[trigger] s[i]).0,
        exists|i: int| 0 <= i < s.len() && spec_since(s) == (#[trigger] s[i]).0,
        exists|i: int| 0 <= i < s.len() && spec_until(s) == (#[trigger] s[i]).0,
        spec_since(s) <= spec_until(s),
    decreases s.len(),
{
    if s.len() == 1 {
        let rest = s.drop_last();
        assert(rest.len() == 0);
        assert(spec_since(rest) == i64::MAX as int);
        assert(spec_until(rest) == i64::MIN as int);
        assert(s.last() == s[0]);
        assert(spec_since(s) == s[0].0);
        assert(spec_until(s) == s[0].0);
    } else {
        lemma_log_chunk_interval(s.drop_last());
        let rest = s.drop_last();
        assert(forall|i: int| 0 <= i < s.len() - 1 ==> s[i] == #[trigger] rest[i]);
        assert forall|i: int| 0 <= i < s.len() implies spec_since(s) <= (#[trigger] s[i]).0 by {
            if i < s.len() - 1 {
                assert(s[i] == rest[i]);
                assert(spec_since(rest) <= rest[i].0);
            }
        }
        assert forall|i: int| 0 <= i < s.len() implies spec_until(s) >= (#[trigger] s[i]).0 by {
            if i < s.len() - 1 {
                assert(s[i] == rest[i]);
                assert(spec_until(rest) >= rest[i].0);
            }
        }
        if spec_since(s) == s.last().0 {
            assert(0 <= s.len() - 1 < s.len() && spec_since(s) == s[s.len() - 1].0);
        } else {
            let ghost w = choose|i: int|
                0 <= i < rest.len() && spec_since(rest) == (#[trigger] rest[i]).0;
            assert(0 <= w < s.len() && spec_since(s) == s[w].0);
        }
        if spec_until(s) == s.last().0 {
            assert(0 <= s.len() - 1 < s.len() && spec_until(s) == s[s.len() - 1].0);
        } else {
            let ghost w = choose|i: int|
                0 <= i < rest.len() && spec_until(rest) == (#[trigger] rest[i]).0;
            assert(0 <= w < s.len() && spec_until(s) == s[w].0);
        }
    }
}

} // verus!
