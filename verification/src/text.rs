//! String-level helpers shared by the enumerators and the formatter:
//! prefix/suffix tests on character sequences, path joining and parent
//! computation, and decimal rendering of integers.
use vstd::prelude::*;

verus! {

/// True when `s` ends with the suffix `p`.
pub open spec fn has_suffix(s: Seq<char>, p: Seq<char>) -> bool {
    p.len() <= s.len() && s.subrange(s.len() - p.len(), s.len() as int) == p
}

/// The reserved extension (with its separating period) that marks a
/// directory entry as the root of a stored hierarchy.
pub open spec fn zarr_suffix() -> Seq<char> {
    seq!['.', 'z', 'a', 'r', 'r']
}

/// True when the name denotes a hidden entry: it begins with a period.
pub open spec fn is_hidden_name(s: Seq<char>) -> bool {
    s.len() > 0 && s[0] == '.'
}

/// `dir` and `name` joined with a single path separator; a directory that
/// already ends in the separator gets no second one.
pub open spec fn join_seq(dir: Seq<char>, name: Seq<char>) -> Seq<char> {
    if dir.len() > 0 && dir.last() == '/' {
        dir + name
    } else {
        dir.push('/') + name
    }
}

/// Index of the last path separator in `s`, or -1 when there is none.
pub open spec fn last_slash(s: Seq<char>) -> int
    decreases s.len(),
{
    if s.len() == 0 {
        -1
    } else if s.last() == '/' {
        s.len() - 1
    } else {
        last_slash(s.drop_last())
    }
}

/// The parent of a path: the part before the last separator, the lone
/// separator when the path is like "/name", and nothing when the path has
/// no separator at all or is the filesystem root itself.
pub open spec fn parent_seq(s: Seq<char>) -> Option<Seq<char>> {
    let i = last_slash(s);
    if i < 0 {
        None
    } else if i == 0 {
        if s.len() == 1 {
            None
        } else {
            Some(seq!['/'])
        }
    } else {
        Some(s.subrange(0, i))
    }
}

/// True when `name` holds no path separator.
pub open spec fn no_slash(name: Seq<char>) -> bool {
    forall|i: int| 0 <= i < name.len() ==> name[i] != '/'
}

pub fn starts_with_period(s: &String) -> (r: bool)
    ensures
        r == is_hidden_name(s@),
{
    let st = s.as_str();
    if st.unicode_len() == 0 {
        false
    } else {
        st.get_char(0) == '.'
    }
}

pub fn has_zarr_suffix(s: &String) -> (r: bool)
    ensures
        r == has_suffix(s@, zarr_suffix()),
{
    let st = s.as_str();
    let n = st.unicode_len();
    if n < 5 {
        return false;
    }
    let r = st.get_char(n - 5) == '.' && st.get_char(n - 4) == 'z' && st.get_char(n - 3) == 'a'
        && st.get_char(n - 2) == 'r' && st.get_char(n - 1) == 'r';
    proof {
        if r {
            assert(s@.subrange(s@.len() - 5, s@.len() as int) =~= zarr_suffix());
        } else {
            if s@.subrange(s@.len() - 5, s@.len() as int) == zarr_suffix() {
                assert(s@[s@.len() - 5] == '.');
                assert(s@[s@.len() - 4] == 'z');
                assert(s@[s@.len() - 3] == 'a');
                assert(s@[s@.len() - 2] == 'r');
                assert(s@[s@.len() - 1] == 'r');
            }
        }
    }
    r
}

pub fn join_path(dir: &String, name: &String) -> (r: String)
    ensures
        r@ == join_seq(dir@, name@),
{
    let mut r = dir.clone();
    let st = dir.as_str();
    let n = st.unicode_len();
    if n == 0 || st.get_char(n - 1) != '/' {
        r.append("/");
        proof {
            reveal_strlit("/");
            assert(dir@ + "/"@ =~= dir@.push('/'));
        }
    }
    r.append(name.as_str());
    r
}

/// Locates the last separator and hands back the parent path, mirroring
/// `parent_seq`.
pub fn parent_of(path: &String) -> (r: Option<String>)
    ensures
        match r {
            Some(p) => parent_seq(path@) is Some && p@ == parent_seq(path@)->0,
            None => parent_seq(path@) is None,
        },
{
    let st = path.as_str();
    let n = st.unicode_len();
    let mut i: usize = n;
    while i > 0
        invariant
            i <= n,
            n == path@.len(),
            st@ == path@,
            forall|j: int| i <= j < n ==> path@[j] != '/',
        decreases i,
    {
        if st.get_char(i - 1) == '/' {
            proof {
                lemma_last_slash_at(path@, i - 1);
            }
            if i - 1 == 0 {
                if n == 1 {
                    return None;
                }
                let root = "/".to_owned();
                proof {
                    reveal_strlit("/");
                    assert(root@ =~= seq!['/']);
                }
                return Some(root);
            }
            let p = st.substring_char(0, i - 1).to_owned();
            return Some(p);
        }
        i = i - 1;
    }
    proof {
        lemma_last_slash_none(path@);
    }
    None
}

/// When a separator stands at `k` and none stands after it, `k` is the
/// last separator.
proof fn lemma_last_slash_at(s: Seq<char>, k: int)
    requires
        0 <= k < s.len(),
        s[k] == '/',
        forall|j: int| k < j < s.len() ==> s[j] != '/',
    ensures
        last_slash(s) == k,
    decreases s.len(),
{
    if s.len() - 1 == k {
    } else {
        lemma_last_slash_at(s.drop_last(), k);
    }
}

/// Without any separator there is no last separator.
proof fn lemma_last_slash_none(s: Seq<char>)
    requires
        forall|j: int| 0 <= j < s.len() ==> s[j] != '/',
    ensures
        last_slash(s) == -1,
    decreases s.len(),
{
    if s.len() > 0 {
        lemma_last_slash_none(s.drop_last());
    }
}

/// The parent of a joined path is the directory it was joined from, for a
/// directory that does not end in a separator (or is the root itself) and a
/// real entry name.
pub proof fn lemma_parent_of_join(dir: Seq<char>, name: Seq<char>)
    requires
        dir.len() > 0,
        name.len() > 0,
        no_slash(name),
        dir.last() != '/' || dir.len() == 1,
    ensures
        parent_seq(join_seq(dir, name)) == Some(dir),
{
    let j = join_seq(dir, name);
    if dir.len() == 1 && dir.last() == '/' {
        assert(j[0] == '/');
        assert forall|i: int| 0 < i < j.len() implies j[i] != '/' by {
            assert(j[i] == name[i - 1]);
        }
        lemma_last_slash_at(j, 0);
        assert(seq!['/'] =~= dir);
    } else {
        assert(j[dir.len() as int] == '/');
        assert forall|i: int| dir.len() < i < j.len() implies j[i] != '/' by {
            assert(j[i] == name[i - dir.len() - 1]);
        }
        lemma_last_slash_at(j, dir.len() as int);
        assert(j.subrange(0, dir.len() as int) =~= dir);
    }
}

/// A joined path carries the reserved suffix exactly when the name does:
/// the suffix holds no separator, so it cannot span the join point.
pub proof fn lemma_join_zarr_suffix(dir: Seq<char>, name: Seq<char>)
    ensures
        has_suffix(join_seq(dir, name), zarr_suffix()) == has_suffix(name, zarr_suffix()),
{
    let j = join_seq(dir, name);
    if name.len() >= 5 {
        let js = j.subrange(j.len() - 5, j.len() as int);
        let ns = name.subrange(name.len() - 5, name.len() as int);
        assert(js =~= ns);
    } else {
        if has_suffix(j, zarr_suffix()) {
            let k = 4 - name.len();
            if dir.len() > 0 && dir.last() == '/' {
                assert(j[dir.len() - 1] == '/');
            } else {
                assert(j[dir.len() as int] == '/');
            }
            assert(j.subrange(j.len() - 5, j.len() as int)[k] == j[j.len() - 5 + k]);
            assert(zarr_suffix()[k] == '/');
            assert(false);
        }
    }
}

/// Decimal digits of `n`, most significant first.
pub open spec fn dec_seq(n: nat) -> Seq<char>
    decreases n,
{
    if n < 10 {
        seq![digit_char(n)]
    } else {
        dec_seq(n / 10).push(digit_char(n % 10))
    }
}

/// The character for a single decimal digit.
pub open spec fn digit_char(d: nat) -> char {
    if d == 0 {
        '0'
    } else if d == 1 {
        '1'
    } else if d == 2 {
        '2'
    } else if d == 3 {
        '3'
    } else if d == 4 {
        '4'
    } else if d == 5 {
        '5'
    } else if d == 6 {
        '6'
    } else if d == 7 {
        '7'
    } else if d == 8 {
        '8'
    } else {
        '9'
    }
}

fn digit_str(d: u64) -> (r: &'static str)
    requires
        d < 10,
    ensures
        r@ == seq![digit_char(d as nat)],
{
    if d == 0 {
        proof {
            reveal_strlit("0");
            assert("0"@ =~= seq![digit_char(0)]);
        }
        "0"
    } else if d == 1 {
        proof {
            reveal_strlit("1");
            assert("1"@ =~= seq![digit_char(1)]);
        }
        "1"
    } else if d == 2 {
        proof {
            reveal_strlit("2");
            assert("2"@ =~= seq![digit_char(2)]);
        }
        "2"
    } else if d == 3 {
        proof {
            reveal_strlit("3");
            assert("3"@ =~= seq![digit_char(3)]);
        }
        "3"
    } else if d == 4 {
        proof {
            reveal_strlit("4");
            assert("4"@ =~= seq![digit_char(4)]);
        }
        "4"
    } else if d == 5 {
        proof {
            reveal_strlit("5");
            assert("5"@ =~= seq![digit_char(5)]);
        }
        "5"
    } else if d == 6 {
        proof {
            reveal_strlit("6");
            assert("6"@ =~= seq![digit_char(6)]);
        }
        "6"
    } else if d == 7 {
        proof {
            reveal_strlit("7");
            assert("7"@ =~= seq![digit_char(7)]);
        }
        "7"
    } else if d == 8 {
        proof {
            reveal_strlit("8");
            assert("8"@ =~= seq![digit_char(8)]);
        }
        "8"
    } else {
        proof {
            reveal_strlit("9");
            assert("9"@ =~= seq![digit_char(9)]);
        }
        "9"
    }
}

/// Renders `v` in decimal, mirroring `dec_seq`.
pub fn u64_to_dec(v: u64) -> (r: String)
    ensures
        r@ == dec_seq(v as nat),
    decreases v,
{
    if v < 10 {
        let r = digit_str(v).to_owned();
        r
    } else {
        let mut r = u64_to_dec(v / 10);
        r.append(digit_str(v % 10));
        proof {
            assert(dec_seq((v / 10) as nat) + seq![digit_char((v % 10) as nat)] =~= dec_seq(
                (v / 10) as nat,
            ).push(digit_char((v % 10) as nat)));
        }
        r
    }
}

} // verus!
