//! Reading the control-group view: which services the managed slice holds,
//! and which PIDs each one lists.
use vstd::prelude::*;
use vstd::string::StrSliceExecFns;

verus! {

/// A decimal digit.
pub open spec fn is_digit(c: char) -> bool {
    '0' <= c && c <= '9'
}

/// The value of a string of decimal digits.
pub open spec fn digits_value(s: Seq<char>) -> nat
    decreases s.len(),
{
    if s.len() == 0 {
        0
    } else {
        digits_value(s.drop_last()) * 10 + ((s.last() as u32) - ('0' as u32)) as nat
    }
}

/// The PID a line holds: a non-empty run of digits whose value fits a `u32`.
pub open spec fn pid_of_line(line: Seq<char>) -> Option<u32> {
    if line.len() > 0 && (forall|i: int| 0 <= i < line.len() ==> is_digit(#[trigger] line[i])) && digits_value(line)
        <= u32::MAX {
        Some(digits_value(line) as u32)
    } else {
        None
    }
}

/// The PIDs found so far in `s`, and the line still being read.
pub open spec fn scan(s: Seq<char>) -> (Seq<u32>, Seq<char>)
    decreases s.len(),
{
    if s.len() == 0 {
        (Seq::empty(), Seq::empty())
    } else {
        let (done, cur) = scan(s.drop_last());
        if s.last() == '\n' {
            (
                match pid_of_line(cur) {
                    Some(p) => done.push(p),
                    None => done,
                },
                Seq::empty(),
            )
        } else {
            (done, cur.push(s.last()))
        }
    }
}

/// The PIDs listed in a `cgroup.procs` text, one per line, in order; lines
/// that are not a PID are skipped.
pub open spec fn pids_of(s: Seq<char>) -> Seq<u32> {
    let (done, cur) = scan(s);
    match pid_of_line(cur) {
        Some(p) => done.push(p),
        None => done,
    }
}

proof fn lemma_digits_grow(s: Seq<char>, c: char)
    requires
        is_digit(c),
    ensures
        digits_value(s.push(c)) == digits_value(s) * 10 + ((c as u32) - ('0' as u32)) as nat,
        digits_value(s.push(c)) >= digits_value(s),
{
    assert(s.push(c).drop_last() =~= s);
}

/// Reads the PIDs of a `cgroup.procs` text.
pub fn parse_pids(content: &str) -> (r: Vec<u32>)
    ensures
        r@ == pids_of(content@),
{
    let n = content.unicode_len();
    let mut r: Vec<u32> = Vec::new();
    let mut len: usize = 0;
    let mut digits = true;
    let mut big = false;
    let mut value: u64 = 0;
    let mut i: usize = 0;
    while i < n
        invariant
            i <= n,
            len <= i,
            n == content@.len(),
            ({
                let (done, cur) = scan(content@.subrange(0, i as int));
                &&& r@ == done
                &&& len == cur.len()
                &&& digits == (forall|k: int| 0 <= k < cur.len() ==> is_digit(#[trigger] cur[k]))
                &&& digits && !big ==> value == digits_value(cur) && value <= u32::MAX
                &&& digits && big ==> digits_value(cur) > u32::MAX
            }),
        decreases n - i,
    {
        let c = content.get_char(i);
        let ghost pre = content@.subrange(0, i as int);
        let ghost cur = scan(pre).1;
        assert(content@.subrange(0, i + 1).drop_last() =~= pre);
        assert(content@.subrange(0, i + 1).last() == c);
        if c == '\n' {
            if len > 0 && digits && !big {
                r.push(value as u32);
            }
            len = 0;
            digits = true;
            big = false;
            value = 0;
            assert(scan(content@.subrange(0, i + 1)).1 =~= Seq::<char>::empty());
            assert(r@ == scan(content@.subrange(0, i + 1)).0);
        } else {
            if digits && '0' <= c && c <= '9' {
                proof { lemma_digits_grow(cur, c); }
                if !big {
                    let d = (c as u32 - '0' as u32) as u64;
                    let next = value * 10 + d;
                    if next > u32::MAX as u64 {
                        big = true;
                    } else {
                        value = next;
                    }
                }
            } else {
                digits = false;
            }
            len = len + 1;
            proof {
                let nc = cur.push(c);
                assert(scan(content@.subrange(0, i + 1)).1 == nc);
                assert(scan(content@.subrange(0, i + 1)).0 == scan(pre).0);
                assert forall|k: int| 0 <= k < cur.len() implies nc[k] == cur[k] by {}
                if digits {
                    assert(forall|k: int| 0 <= k < nc.len() ==> is_digit(#[trigger] nc[k])) by {
                        assert forall|k: int| 0 <= k < nc.len() implies is_digit(#[trigger] nc[k]) by {
                            if k < cur.len() {
                                assert(nc[k] == cur[k]);
                            }
                        }
                    }
                } else {
                    if forall|k: int| 0 <= k < nc.len() ==> is_digit(#[trigger] nc[k]) {
                        assert(is_digit(nc[nc.len() - 1]));
                        assert forall|k: int| 0 <= k < cur.len() implies is_digit(#[trigger] cur[k]) by {
                            assert(nc[k] == cur[k]);
                        }
                    }
                }
            }
        }
        i = i + 1;
    }
    assert(content@.subrange(0, n as int) =~= content@);
    if len > 0 && digits && !big {
        r.push(value as u32);
    }
    r
}

/// Relies on `str::strip_suffix`: the start of `s` when it ends with `suffix`.
#[verifier::external_body]
fn before_suffix(s: &str, suffix: &str) -> (r: Option<String>)
    ensures
        suffix@.is_suffix_of(s@) ==> r is Some && r->0@ == s@.subrange(0, s@.len() - suffix@.len()),
        !suffix@.is_suffix_of(s@) ==> r is None,
{
    match s.strip_suffix(suffix) {
        Some(t) => Some(t.to_owned()),
        None => None,
    }
}

/// The service a directory of the managed slice belongs to: its name
/// without `.service`; other directories belong to none.
pub fn service_of_dir(dir_name: &str) -> (r: Option<String>)
    ensures
        ".service"@.is_suffix_of(dir_name@) ==> r is Some && r->0@ == dir_name@.subrange(0, dir_name@.len() - 8),
        !".service"@.is_suffix_of(dir_name@) ==> r is None,
{
    proof { reveal_strlit(".service"); }
    before_suffix(dir_name, ".service")
}

} // verus!
