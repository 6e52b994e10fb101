//! The version grammar: `major.minor.patch` with optional
//! pre-release and build tags, and decimal rendering of the parts.

use vstd::prelude::*;
use vstd::string::StrSliceExecFns;

use crate::errors::Error;
use crate::paths::{find_first, lemma_find_first, str_find};
use crate::text::{split_seq, split_string, views};

verus! {

/// A parsed crate version: the three numeric parts and the raw
/// pre-release and build strings (empty when absent).
pub struct Version {
    pub major: u64,
    pub minor: u64,
    pub patch: u64,
    pub pre: String,
    pub build: String,
}

/// Whether `c` is an ASCII decimal digit.
pub open spec fn is_digit(c: char) -> bool {
    ('0' as u32) <= (c as u32) && (c as u32) <= ('9' as u32)
}

/// The value of one digit.
pub open spec fn digit_val(c: char) -> nat {
    ((c as u32) - ('0' as u32)) as nat
}

/// The number a digit string denotes, most significant digit first.
pub open spec fn num_val(s: Seq<char>) -> nat
    decreases s.len(),
{
    if s.len() == 0 {
        0
    } else {
        num_val(s.drop_last()) * 10 + digit_val(s.last())
    }
}

/// A numeric version part: nonempty digits, no leading zero, and a
/// value a `u64` can hold.
pub open spec fn valid_num(s: Seq<char>) -> bool {
    &&& s.len() > 0
    &&& (forall|i: int| 0 <= i < s.len() ==> is_digit(#[trigger] s[i]))
    &&& (s[0] != '0' || s.len() == 1)
    &&& num_val(s) <= u64::MAX
}

/// Whether `c` may stand in a pre-release or build identifier.
pub open spec fn is_ident_char(c: char) -> bool {
    is_digit(c) || (('a' as u32) <= (c as u32) && (c as u32) <= ('z' as u32)) || (('A' as u32) <= (
    c as u32) && (c as u32) <= ('Z' as u32)) || c == '-'
}

/// A pre-release or build tag: dot-separated identifiers, each
/// nonempty and made of digits, ASCII letters and `-`.
pub open spec fn valid_tag(s: Seq<char>) -> bool {
    forall|k: int|
        0 <= k < split_seq(s, '.').len() ==> {
            let piece = #[trigger] split_seq(s, '.')[k];
            piece.len() > 0 && (forall|i: int| 0 <= i < piece.len() ==> is_ident_char(#[trigger] piece[i]))
        }
}

/// Whether an identifier is made of digits alone.
pub open spec fn all_digits(piece: Seq<char>) -> bool {
    forall|i: int| 0 <= i < piece.len() ==> is_digit(#[trigger] piece[i])
}

/// A pre-release tag: a [`valid_tag`] whose numeric identifiers carry
/// no leading zero (an identifier is numeric when it is digits
/// alone).
pub open spec fn valid_pre_tag(s: Seq<char>) -> bool {
    &&& valid_tag(s)
    &&& (forall|k: int|
        0 <= k < split_seq(s, '.').len() ==> {
            let piece = #[trigger] split_seq(s, '.')[k];
            all_digits(piece) ==> (piece.len() == 1 || piece[0] != '0')
        })
}

/// How a version string is read: everything behind the first `+` is
/// the build tag; in what is left, everything behind the first `-` is
/// the pre-release tag; the rest must be exactly
/// `major.minor.patch`, three [`valid_num`] parts. The build tag is a
/// [`valid_tag`], the pre-release tag the stricter [`valid_pre_tag`].
pub open spec fn spec_version(s: Seq<char>) -> Option<(u64, u64, u64, Seq<char>, Seq<char>)> {
    let (left, build) = match find_first(s, '+') {
        None => (s, Seq::<char>::empty()),
        Some(i) => (s.take(i), s.skip(i + 1)),
    };
    let (core, pre) = match find_first(left, '-') {
        None => (left, Seq::<char>::empty()),
        Some(i) => (left.take(i), left.skip(i + 1)),
    };
    let parts = split_seq(core, '.');
    if parts.len() == 3 && valid_num(parts[0]) && valid_num(parts[1]) && valid_num(parts[2])
        && (find_first(s, '+') is Some ==> build.len() > 0 && valid_tag(build)) && (find_first(
        left,
        '-',
    ) is Some ==> pre.len() > 0 && valid_pre_tag(pre)) {
        Some(
            (
                num_val(parts[0]) as u64,
                num_val(parts[1]) as u64,
                num_val(parts[2]) as u64,
                pre,
                build,
            ),
        )
    } else {
        None
    }
}

/// A longer digit string never denotes a smaller number.
proof fn lemma_num_val_prefix(s: Seq<char>, k: int)
    requires
        0 <= k <= s.len(),
    ensures
        num_val(s) >= num_val(s.take(k)),
    decreases s.len() - k,
{
    if k < s.len() {
        lemma_num_val_prefix(s, k + 1);
        assert(s.take(k + 1).drop_last() =~= s.take(k));
        assert(num_val(s.take(k + 1)) == num_val(s.take(k)) * 10 + digit_val(s.take(k + 1).last()));
    } else {
        assert(s.take(k) =~= s);
    }
}

/// Reads a digit string as a `u64`, as [`valid_num`] and [`num_val`]
/// say; refuses anything else.
fn parse_num(s: &str) -> (r: Option<u64>)
    ensures
        match r {
            Some(v) => valid_num(s@) && v == num_val(s@),
            None => !valid_num(s@),
        },
{
    let n: usize = s.unicode_len();
    if n == 0 {
        return None;
    }
    if n > 1 && s.get_char(0) == '0' {
        return None;
    }
    let mut acc: u64 = 0;
    let mut i: usize = 0;
    proof {
        assert(s@.take(0) =~= Seq::<char>::empty());
    }
    while i < n
        invariant
            n == s@.len(),
            i <= n,
            acc == num_val(s@.take(i as int)),
            forall|j: int| 0 <= j < i ==> is_digit(#[trigger] s@[j]),
        decreases n - i,
    {
        let c = s.get_char(i);
        if (c as u32) < ('0' as u32) || (c as u32) > ('9' as u32) {
            return None;
        }
        let d: u32 = (c as u32) - ('0' as u32);
        proof {
            assert(s@.take(i + 1 as int).drop_last() =~= s@.take(i as int));
            assert(s@.take(i + 1 as int).last() == s@[i as int]);
        }
        if acc > (u64::MAX - (d as u64)) / 10 {
            proof {
                assert((acc as nat) * 10 + (d as nat) > u64::MAX) by (nonlinear_arith)
                    requires
                        acc > (u64::MAX - (d as u64)) / 10,
                        d <= 9,
                ;
                assert(num_val(s@.take(i + 1 as int)) > u64::MAX);
                lemma_num_val_prefix(s@, i + 1);
            }
            return None;
        }
        proof {
            assert((acc as nat) * 10 + (d as nat) <= u64::MAX) by (nonlinear_arith)
                requires
                    acc <= (u64::MAX - (d as u64)) / 10,
                    d <= 9,
            ;
        }
        acc = acc * 10 + (d as u64);
        i += 1;
    }
    proof {
        assert(s@.take(n as int) =~= s@);
    }
    Some(acc)
}

/// Checks one pre-release or build tag against [`valid_tag`].
fn check_tag(s: &str) -> (r: bool)
    ensures
        r == valid_tag(s@),
{
    let pieces = split_string(s, '.');
    let ghost all = split_seq(s@, '.');
    let mut k: usize = 0;
    while k < pieces.len()
        invariant
            views(pieces@) == all,
            all == split_seq(s@, '.'),
            k <= pieces@.len(),
            forall|q: int|
                0 <= q < k ==> all[q].len() > 0 && (forall|i: int|
                    0 <= i < all[q].len() ==> is_ident_char(#[trigger] all[q][i])),
        decreases pieces@.len() - k,
    {
        let piece = &pieces[k];
        let m: usize = piece.as_str().unicode_len();
        if m == 0 {
            proof {
                assert(all[k as int].len() == 0);
            }
            return false;
        }
        let mut i: usize = 0;
        while i < m
            invariant
                views(pieces@) == all,
                all == split_seq(s@, '.'),
                k < pieces@.len(),
                piece == pieces@[k as int],
                m == piece@.len(),
                i <= m,
                forall|j: int| 0 <= j < i ==> is_ident_char(#[trigger] piece@[j]),
            decreases m - i,
        {
            let c = piece.as_str().get_char(i);
            let ok = ((c as u32) >= ('0' as u32) && (c as u32) <= ('9' as u32)) || ((c as u32)
                >= ('a' as u32) && (c as u32) <= ('z' as u32)) || ((c as u32) >= ('A' as u32) && (c
                as u32) <= ('Z' as u32)) || c == '-';
            if !ok {
                proof {
                    assert(!is_ident_char(piece@[i as int]));
                    assert(all[k as int][i as int] == piece@[i as int]);
                    assert(!valid_tag(s@)) by {
                        if valid_tag(s@) {
                            let pk = split_seq(s@, '.')[k as int];
                            assert(pk.len() > 0);
                            assert(is_ident_char(pk[i as int]));
                        }
                    }
                }
                return false;
            }
            i += 1;
        }
        proof {
            assert(forall|i: int| 0 <= i < all[k as int].len() ==> is_ident_char(
                #[trigger] all[k as int][i],
            ));
        }
        k += 1;
    }
    true
}

/// Checks one pre-release tag against [`valid_pre_tag`].
fn check_pre_tag(s: &str) -> (r: bool)
    ensures
        r == valid_pre_tag(s@),
{
    if !check_tag(s) {
        return false;
    }
    let pieces = split_string(s, '.');
    let ghost all = split_seq(s@, '.');
    let mut k: usize = 0;
    while k < pieces.len()
        invariant
            views(pieces@) == all,
            all == split_seq(s@, '.'),
            valid_tag(s@),
            k <= pieces@.len(),
            forall|q: int|
                0 <= q < k ==> (all_digits(#[trigger] all[q]) ==> (all[q].len() == 1 || all[q][0]
                    != '0')),
        decreases pieces@.len() - k,
    {
        let piece = &pieces[k];
        let m: usize = piece.as_str().unicode_len();
        let mut digits = true;
        let mut i: usize = 0;
        while i < m
            invariant
                views(pieces@) == all,
                all == split_seq(s@, '.'),
                k < pieces@.len(),
                piece == pieces@[k as int],
                m == piece@.len(),
                i <= m,
                digits == (forall|j: int| 0 <= j < i ==> is_digit(#[trigger] piece@[j])),
            decreases m - i,
        {
            let c = piece.as_str().get_char(i);
            let d = (c as u32) >= ('0' as u32) && (c as u32) <= ('9' as u32);
            proof {
                if digits && d {
                    assert(forall|j: int| 0 <= j < i + 1 ==> is_digit(#[trigger] piece@[j]));
                } else {
                    if !d {
                        assert(!is_digit(piece@[i as int]));
                    }
                }
            }
            digits = digits && d;
            i += 1;
        }
        if digits && m > 1 && piece.as_str().get_char(0) == '0' {
            proof {
                assert(all_digits(all[k as int])) by {
                    assert(forall|j: int|
                        0 <= j < piece@.len() ==> is_digit(#[trigger] piece@[j]));
                }
                assert(!valid_pre_tag(s@)) by {
                    if valid_pre_tag(s@) {
                        let pk = split_seq(s@, '.')[k as int];
                        assert(all_digits(pk) ==> (pk.len() == 1 || pk[0] != '0'));
                    }
                }
            }
            return false;
        }
        proof {
            assert(all_digits(all[k as int]) ==> (all[k as int].len() == 1 || all[k as int][0]
                != '0')) by {
                if all_digits(all[k as int]) {
                    assert(is_digit(all[k as int][0]));
                    assert(forall|j: int|
                        0 <= j < piece@.len() ==> is_digit(#[trigger] piece@[j]));
                }
            }
        }
        k += 1;
    }
    true
}

impl Version {
    /// Reads a version string, as [`spec_version`] says: the three
    /// numeric parts, the pre-release tag behind `-` and the build tag
    /// behind `+`.
    pub fn parse(s: &str) -> (r: Result<Version, Error>)
        ensures
            match r {
                Ok(v) => spec_version(s@) == Some(
                    (v.major, v.minor, v.patch, v.pre@, v.build@),
                ),
                Err(e) => spec_version(s@) is None && e == Error::VersionParse,
            },
    {
        let n: usize = s.unicode_len();
        let (left, build, has_build): (String, String, bool) = match str_find(s, '+') {
            None => (s.to_owned(), String::new(), false),
            Some(i) => {
                proof {
                    lemma_find_first(s@, '+');
                }
                (s.substring_char(0, i).to_owned(), s.substring_char(i + 1, n).to_owned(), true)
            },
        };
        proof {
            if find_first(s@, '+') is Some {
                let i = find_first(s@, '+')->Some_0;
                assert(left@ =~= s@.take(i));
                assert(build@ =~= s@.skip(i + 1));
            }
        }
        let ln: usize = left.as_str().unicode_len();
        let (core, pre, has_pre): (String, String, bool) = match str_find(left.as_str(), '-') {
            None => (left.clone(), String::new(), false),
            Some(i) => {
                proof {
                    lemma_find_first(left@, '-');
                }
                (
                    left.as_str().substring_char(0, i).to_owned(),
                    left.as_str().substring_char(i + 1, ln).to_owned(),
                    true,
                )
            },
        };
        proof {
            if find_first(left@, '-') is Some {
                let i = find_first(left@, '-')->Some_0;
                assert(core@ =~= left@.take(i));
                assert(pre@ =~= left@.skip(i + 1));
            }
        }
        let parts = split_string(core.as_str(), '.');
        if parts.len() != 3 {
            return Err(Error::VersionParse);
        }
        proof {
            assert(parts@[0]@ == split_seq(core@, '.')[0]);
            assert(parts@[1]@ == split_seq(core@, '.')[1]);
            assert(parts@[2]@ == split_seq(core@, '.')[2]);
        }
        let major = match parse_num(parts[0].as_str()) {
            Some(v) => v,
            None => {
                return Err(Error::VersionParse);
            },
        };
        let minor = match parse_num(parts[1].as_str()) {
            Some(v) => v,
            None => {
                return Err(Error::VersionParse);
            },
        };
        let patch = match parse_num(parts[2].as_str()) {
            Some(v) => v,
            None => {
                return Err(Error::VersionParse);
            },
        };
        if has_build {
            if build.as_str().unicode_len() == 0 || !check_tag(build.as_str()) {
                return Err(Error::VersionParse);
            }
        }
        if has_pre {
            if pre.as_str().unicode_len() == 0 || !check_pre_tag(pre.as_str()) {
                return Err(Error::VersionParse);
            }
        }
        Ok(Version { major, minor, patch, pre, build })
    }
}


/// One decimal digit as a character.
pub open spec fn dec_digit(n: nat) -> char {
    if n == 0 {
        '0'
    } else if n == 1 {
        '1'
    } else if n == 2 {
        '2'
    } else if n == 3 {
        '3'
    } else if n == 4 {
        '4'
    } else if n == 5 {
        '5'
    } else if n == 6 {
        '6'
    } else if n == 7 {
        '7'
    } else if n == 8 {
        '8'
    } else {
        '9'
    }
}

/// The decimal rendering of a number, most significant digit first,
/// without leading zeros.
pub open spec fn dec_str(n: nat) -> Seq<char>
    decreases n,
{
    if n < 10 {
        seq![dec_digit(n)]
    } else {
        dec_str(n / 10).push(dec_digit(n % 10))
    }
}

fn dec_digit_exec(n: u64) -> (r: char)
    requires
        n < 10,
    ensures
        r == dec_digit(n as nat),
{
    if n == 0 {
        '0'
    } else if n == 1 {
        '1'
    } else if n == 2 {
        '2'
    } else if n == 3 {
        '3'
    } else if n == 4 {
        '4'
    } else if n == 5 {
        '5'
    } else if n == 6 {
        '6'
    } else if n == 7 {
        '7'
    } else if n == 8 {
        '8'
    } else {
        '9'
    }
}

/// Renders a number in decimal, as [`dec_str`] says.
pub fn u64_to_string(n: u64) -> (r: String)
    ensures
        r@ == dec_str(n as nat),
    decreases n,
{
    if n < 10 {
        let mut r = String::new();
        crate::text::push_char(&mut r, dec_digit_exec(n));
        proof {
            assert(r@ =~= seq![dec_digit(n as nat)]);
        }
        r
    } else {
        let mut r = u64_to_string(n / 10);
        crate::text::push_char(&mut r, dec_digit_exec(n % 10));
        r
    }
}

} // verus!

