//! Support for locating the bar process among running processes: deciding
//! whether a process's command name is the bar's, and reading a process id
//! out of a directory name.

use vstd::prelude::*;

verus! {

/// ASCII whitespace, as trimmed from the ends of a command-name line.
pub open spec fn is_space(b: u8) -> bool {
    b == 32 || b == 9 || b == 10 || b == 13 || b == 11 || b == 12
}

/// The sequence with leading whitespace removed.
pub open spec fn trim_front(s: Seq<u8>) -> Seq<u8>
    decreases s.len(),
{
    if s.len() > 0 && is_space(s[0]) {
        trim_front(s.subrange(1, s.len() as int))
    } else {
        s
    }
}

/// The sequence with trailing whitespace removed.
pub open spec fn trim_back(s: Seq<u8>) -> Seq<u8>
    decreases s.len(),
{
    if s.len() > 0 && is_space(s[s.len() - 1]) {
        trim_back(s.subrange(0, s.len() - 1))
    } else {
        s
    }
}

/// The sequence with whitespace removed from both ends.
pub open spec fn trimmed(s: Seq<u8>) -> Seq<u8> {
    trim_back(trim_front(s))
}

/// The command name of the bar process: the bytes of "waybar".
pub open spec fn peer_name() -> Seq<u8> {
    seq![119u8, 97u8, 121u8, 98u8, 97u8, 114u8]
}

fn is_space_byte(b: u8) -> (r: bool)
    ensures
        r == is_space(b),
{
    b == 32 || b == 9 || b == 10 || b == 13 || b == 11 || b == 12
}

proof fn lemma_trim_front_step(s: Seq<u8>, i: int)
    requires
        0 <= i < s.len(),
        is_space(s[i]),
    ensures
        trim_front(s.subrange(i, s.len() as int)) == trim_front(s.subrange(i + 1, s.len() as int)),
{
    let sub = s.subrange(i, s.len() as int);
    assert(sub[0] == s[i]);
    assert(sub.subrange(1, sub.len() as int) =~= s.subrange(i + 1, s.len() as int));
}

proof fn lemma_trim_back_step(s: Seq<u8>, a: int, e: int)
    requires
        0 <= a < e <= s.len(),
        is_space(s[e - 1]),
    ensures
        trim_back(s.subrange(a, e)) == trim_back(s.subrange(a, e - 1)),
{
    let sub = s.subrange(a, e);
    assert(sub[sub.len() - 1] == s[e - 1]);
    assert(sub.subrange(0, sub.len() - 1) =~= s.subrange(a, e - 1));
}

fn range_is_peer(comm: &[u8], start: usize, end: usize) -> (r: bool)
    requires
        start <= end <= comm@.len(),
        comm@.len() <= usize::MAX,
    ensures
        r == (comm@.subrange(start as int, end as int) == peer_name()),
{
    let ghost sub = comm@.subrange(start as int, end as int);
    let mut name: Vec<u8> = Vec::new();
    name.push(119u8);
    name.push(97u8);
    name.push(121u8);
    name.push(98u8);
    name.push(97u8);
    name.push(114u8);
    assert(name@ =~= peer_name());
    if end - start != name.len() {
        return false;
    }
    let mut k: usize = 0;
    while k < name.len()
        invariant
            0 <= k <= name@.len(),
            name@ == peer_name(),
            start + name@.len() == end <= comm@.len(),
            comm@.len() <= usize::MAX,
            sub == comm@.subrange(start as int, end as int),
            forall|t: int| 0 <= t < k ==> comm@[start + t] == name@[t],
        decreases name@.len() - k,
    {
        if comm[start + k] != name[k] {
            proof {
                assert(sub[k as int] == comm@[start + k as int]);
            }
            return false;
        }
        k = k + 1;
    }
    proof {
        assert forall|t: int| 0 <= t < sub.len() implies sub[t] == name@[t] by {
            assert(sub[t] == comm@[start + t]);
        }
        assert(sub =~= name@);
    }
    true
}

/// Whether the contents of a process's command-name line, once trimmed of
/// surrounding whitespace, name the bar process.
pub fn comm_is_peer(comm: &[u8]) -> (r: bool)
    ensures
        r == (trimmed(comm@) == peer_name()),
{
    let n: usize = comm.len();
    proof {
        assert(comm@.len() <= usize::MAX);
        assert(comm@.subrange(0, comm@.len() as int) =~= comm@);
    }
    let mut start: usize = 0;
    while start < n && is_space_byte(comm[start])
        invariant
            n == comm@.len(),
            0 <= start <= comm@.len(),
            comm@.len() <= usize::MAX,
            trim_front(comm@) == trim_front(comm@.subrange(start as int, comm@.len() as int)),
        decreases comm@.len() - start,
    {
        proof {
            lemma_trim_front_step(comm@, start as int);
        }
        start = start + 1;
    }
    let ghost tf = comm@.subrange(start as int, comm@.len() as int);
    proof {
        assert(trim_front(tf) == tf);
        assert(trim_front(comm@) == tf);
    }
    let mut end: usize = n;
    while end > start && is_space_byte(comm[end - 1])
        invariant
            start <= end <= comm@.len(),
            comm@.len() <= usize::MAX,
            tf == comm@.subrange(start as int, comm@.len() as int),
            trim_back(tf) == trim_back(comm@.subrange(start as int, end as int)),
        decreases end,
    {
        proof {
            lemma_trim_back_step(comm@, start as int, end as int);
        }
        end = end - 1;
    }
    proof {
        let sub = comm@.subrange(start as int, end as int);
        assert(trim_back(sub) == sub);
        assert(trimmed(comm@) == sub);
    }
    range_is_peer(comm, start, end)
}

/// Every byte is an ASCII decimal digit.
pub open spec fn all_digits(s: Seq<u8>) -> bool {
    forall|i: int| 0 <= i < s.len() ==> 48 <= #[trigger] s[i] <= 57
}

/// The number the digits spell, most significant first; empty counts as
/// zero.
pub open spec fn digits_value(s: Seq<u8>) -> int
    decreases s.len(),
{
    if s.len() == 0 {
        0
    } else {
        digits_value(s.subrange(0, s.len() - 1)) * 10 + (s[s.len() - 1] - 48)
    }
}

/// What a signed decimal integer parse yields on these bytes: an optional
/// sign, then at least one digit and nothing else, the value fitting the
/// type; anything else is rejected.
pub open spec fn parsed_unsigned(ds: Seq<u8>, neg: bool) -> Option<i32> {
    if ds.len() == 0 || !all_digits(ds) {
        None
    } else {
        let v = if neg {
            -digits_value(ds)
        } else {
            digits_value(ds)
        };
        if i32::MIN <= v <= i32::MAX {
            Some(v as i32)
        } else {
            None
        }
    }
}

/// The process id a directory name spells, if it is one.
pub open spec fn parsed_pid(s: Seq<u8>) -> Option<i32> {
    if s.len() > 0 && (s[0] == 43 || s[0] == 45) {
        parsed_unsigned(s.subrange(1, s.len() as int), s[0] == 45)
    } else {
        parsed_unsigned(s, false)
    }
}

proof fn lemma_digits_value_nonneg(s: Seq<u8>)
    requires
        all_digits(s),
    ensures
        digits_value(s) >= 0,
    decreases s.len(),
{
    if s.len() > 0 {
        lemma_digits_value_nonneg(s.subrange(0, s.len() - 1));
    }
}

proof fn lemma_digits_value_mono(s: Seq<u8>, a: int, m: int, e: int)
    requires
        0 <= a <= m <= e <= s.len(),
        all_digits(s.subrange(a, e)),
    ensures
        digits_value(s.subrange(a, m)) <= digits_value(s.subrange(a, e)),
    decreases e - m,
{
    if m < e {
        let whole = s.subrange(a, e);
        let head = s.subrange(a, e - 1);
        assert(whole.subrange(0, whole.len() - 1) =~= head);
        assert forall|i: int| 0 <= i < head.len() implies 48 <= #[trigger] head[i] <= 57 by {
            assert(head[i] == whole[i]);
        }
        lemma_digits_value_mono(s, a, m, e - 1);
        lemma_digits_value_nonneg(head);
        assert(digits_value(whole) == digits_value(head) * 10 + (whole[whole.len() - 1] - 48));
        assert(48 <= whole[whole.len() - 1] <= 57);
    }
}

/// Parses a directory name as a decimal process id: an optional sign, then
/// only digits, the value fitting the type; anything else yields nothing.
pub fn parse_pid(name: &[u8]) -> (r: Option<i32>)
    ensures
        r == parsed_pid(name@),
{
    let n: usize = name.len();
    if n == 0 {
        return None;
    }
    let mut neg = false;
    let mut i: usize = 0;
    if name[0] == 45 {
        neg = true;
        i = 1;
    } else if name[0] == 43 {
        i = 1;
    }
    let ghost start = i as int;
    let ghost ds = name@.subrange(start, name@.len() as int);
    proof {
        if start == 0 {
            assert(ds =~= name@);
        }
        assert(parsed_pid(name@) == parsed_unsigned(ds, neg));
    }
    if i >= n {
        return None;
    }
    let mut acc: i64 = 0;
    while i < n
        invariant
            n == name@.len() <= usize::MAX,
            start <= i <= n,
            1 <= start + 1 <= n,
            ds == name@.subrange(start, name@.len() as int),
            parsed_pid(name@) == parsed_unsigned(ds, neg),
            all_digits(name@.subrange(start, i as int)),
            acc == digits_value(name@.subrange(start, i as int)),
            0 <= acc <= 0x8000_0000,
        decreases n - i,
    {
        let b = name[i];
        if b < 48 || b > 57 {
            proof {
                assert(ds[i - start] == name@[i as int]);
                assert(!all_digits(ds));
            }
            return None;
        }
        proof {
            let head = name@.subrange(start, i as int);
            let next = name@.subrange(start, i + 1);
            assert(next.subrange(0, next.len() - 1) =~= head);
            assert(next[next.len() - 1] == name@[i as int]);
            assert(digits_value(next) == digits_value(head) * 10 + (name@[i as int] - 48));
            assert forall|t: int| 0 <= t < next.len() implies 48 <= #[trigger] next[t] <= 57 by {
                if t < head.len() {
                    assert(next[t] == head[t]);
                }
            }
        }
        acc = acc * 10 + (b - 48) as i64;
        i = i + 1;
        if acc > 0x8000_0000 {
            proof {
                if all_digits(ds) {
                    lemma_digits_value_mono(name@, start, i as int, name@.len() as int);
                    assert(digits_value(ds) >= acc);
                }
            }
            return None;
        }
    }
    proof {
        assert(name@.subrange(start, i as int) =~= ds);
        assert(ds.len() > 0);
    }
    if neg {
        let v: i64 = -acc;
        proof {
            assert(i32::MIN <= v <= i32::MAX);
        }
        Some(v as i32)
    } else {
        if acc > 0x7fff_ffff {
            return None;
        }
        Some(acc as i32)
    }
}

} // verus!
