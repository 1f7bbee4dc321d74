//! The composite token-id codec.
//!
//! Every minted token is identified by `{base}_{counter}`: the catalog
//! entity's id, one underscore, and the entity's mint counter in decimal.
//! The codec is the single place where such ids are built and taken apart;
//! the base id is everything before the last underscore, so a base id may
//! itself contain underscores.

use vstd::prelude::*;
use vstd::string::StrSliceExecFns;
use vstd::string::StringExecFns;
use crate::errors::ContractError;

verus! {

/// The character of one decimal digit.
pub open spec fn spec_digit_char(d: nat) -> char {
    if d == 0 {
        '0'
    } else if d == 1 {
        '1'
    } else if d == 2 {
        '2'
    } else if d == 3 {
        '3'
    } else if d == 4 {
        '4'
    } else if d == 5 {
        '5'
    } else if d == 6 {
        '6'
    } else if d == 7 {
        '7'
    } else if d == 8 {
        '8'
    } else {
        '9'
    }
}

/// The value of one decimal digit character; 10 for any other character.
pub open spec fn spec_digit_val(c: char) -> nat {
    if c == '0' {
        0
    } else if c == '1' {
        1
    } else if c == '2' {
        2
    } else if c == '3' {
        3
    } else if c == '4' {
        4
    } else if c == '5' {
        5
    } else if c == '6' {
        6
    } else if c == '7' {
        7
    } else if c == '8' {
        8
    } else if c == '9' {
        9
    } else {
        10
    }
}

/// The decimal digits of `n`, most significant first.
pub open spec fn spec_dec(n: nat) -> Seq<char>
    decreases n,
{
    if n < 10 {
        seq![spec_digit_char(n)]
    } else {
        spec_dec(n / 10).push(spec_digit_char(n % 10))
    }
}

/// Every character is a decimal digit.
pub open spec fn spec_is_digits(s: Seq<char>) -> bool {
    forall|i: int| 0 <= i < s.len() ==> spec_digit_val(#[trigger] s[i]) < 10
}

/// The numeric value of a digit string, most significant first.
pub open spec fn spec_dec_val(s: Seq<char>) -> nat
    decreases s.len(),
{
    if s.len() == 0 {
        0
    } else {
        spec_dec_val(s.drop_last()) * 10 + spec_digit_val(s.last())
    }
}

/// A decimal rendering is non-empty, holds digits only, and reads back to
/// the number it was made from.
pub proof fn lemma_dec(n: nat)
    ensures
        spec_dec(n).len() >= 1,
        spec_is_digits(spec_dec(n)),
        spec_dec_val(spec_dec(n)) == n,
    decreases n,
{
    if n < 10 {
        assert(spec_dec(n) =~= seq![spec_digit_char(n)]);
        assert(spec_dec(n).drop_last() =~= Seq::<char>::empty());
        assert(spec_dec_val(Seq::<char>::empty()) == 0);
    } else {
        lemma_dec(n / 10);
        let s = spec_dec(n);
        assert(s.drop_last() =~= spec_dec(n / 10));
        assert(s.last() == spec_digit_char(n % 10));
        assert(spec_dec_val(s) == n) by {
            assert(spec_dec_val(spec_dec(n / 10)) == n / 10);
            assert((n / 10) * 10 + n % 10 == n) by (nonlinear_arith);
        }
    }
}

/// Extending a digit string on the right can only grow its value.
proof fn lemma_dec_val_prefix(s: Seq<char>, m: int)
    requires
        0 <= m <= s.len(),
    ensures
        spec_dec_val(s.take(m)) <= spec_dec_val(s),
    decreases s.len(),
{
    if m < s.len() {
        let t = s.drop_last();
        assert(s.take(m) =~= t.take(m));
        lemma_dec_val_prefix(t, m);
    } else {
        assert(s.take(m) =~= s);
    }
}

/// The one-character string of a digit.
fn digit_str(d: u64) -> (r: &'static str)
    requires
        d < 10,
    ensures
        r@ == seq![spec_digit_char(d as nat)],
{
    proof {
        reveal_strlit("0");
        reveal_strlit("1");
        reveal_strlit("2");
        reveal_strlit("3");
        reveal_strlit("4");
        reveal_strlit("5");
        reveal_strlit("6");
        reveal_strlit("7");
        reveal_strlit("8");
        reveal_strlit("9");
    }
    let s: &'static str = if d == 0 {
        "0"
    } else if d == 1 {
        "1"
    } else if d == 2 {
        "2"
    } else if d == 3 {
        "3"
    } else if d == 4 {
        "4"
    } else if d == 5 {
        "5"
    } else if d == 6 {
        "6"
    } else if d == 7 {
        "7"
    } else if d == 8 {
        "8"
    } else {
        "9"
    };
    proof {
        assert(s@ =~= seq![spec_digit_char(d as nat)]);
    }
    s
}

/// Renders a counter in decimal.
pub fn dec_u64(n: u64) -> (r: String)
    ensures
        r@ == spec_dec(n as nat),
    decreases n,
{
    if n < 10 {
        String::from_str(digit_str(n))
    } else {
        let mut s = dec_u64(n / 10);
        s.append(digit_str(n % 10));
        proof {
            assert(s@ =~= spec_dec(n as nat));
        }
        s
    }
}

/// The composite id of the `count`-th token minted from `base`.
pub open spec fn spec_token_id(base: Seq<char>, count: nat) -> Seq<char> {
    base + seq!['_'] + spec_dec(count)
}

/// Builds a composite token id.
pub fn format_token_id(base: &String, count: u64) -> (r: String)
    ensures
        r@ == spec_token_id(base@, count as nat),
{
    proof {
        reveal_strlit("_");
    }
    let mut s = String::from_str(base.as_str());
    s.append("_");
    let d = dec_u64(count);
    s.append(d.as_str());
    proof {
        assert(s@ =~= spec_token_id(base@, count as nat));
    }
    s
}

/// The position of the last underscore, or -1 if there is none.
pub open spec fn spec_last_sep(id: Seq<char>) -> int
    decreases id.len(),
{
    if id.len() == 0 {
        -1
    } else if id.last() == '_' {
        id.len() - 1
    } else {
        spec_last_sep(id.drop_last())
    }
}

/// What the last-underscore position means.
pub proof fn lemma_last_sep(id: Seq<char>)
    ensures
        -1 <= spec_last_sep(id) < id.len(),
        spec_last_sep(id) >= 0 ==> id[spec_last_sep(id)] == '_',
        forall|j: int| spec_last_sep(id) < j < id.len() ==> id[j] != '_',
    decreases id.len(),
{
    if id.len() > 0 && id.last() != '_' {
        lemma_last_sep(id.drop_last());
        assert(forall|j: int| 0 <= j < id.len() - 1 ==> id[j] == id.drop_last()[j]);
    }
}

/// The base entity id inside a composite token id: everything before the
/// last underscore, or the whole id if there is no underscore.
pub open spec fn spec_base_of(id: Seq<char>) -> Seq<char> {
    if spec_last_sep(id) < 0 {
        id
    } else {
        id.take(spec_last_sep(id))
    }
}

/// Strips the counter suffix off a composite token id.
pub fn base_of(id: &String) -> (r: String)
    ensures
        r@ == spec_base_of(id@),
{
    let s = id.as_str();
    let n = s.unicode_len();
    let mut i: usize = n;
    while i > 0
        invariant
            i <= n,
            n == id@.len(),
            s@ == id@,
            forall|j: int| i <= j < n ==> id@[j] != '_',
        decreases i,
    {
        if s.get_char(i - 1) == '_' {
            proof {
                lemma_last_sep(id@);
                assert(spec_last_sep(id@) == i - 1) by {
                    let ls = spec_last_sep(id@);
                    if ls < i as int - 1 {
                        assert(id@[i as int - 1] != '_');
                    }
                    if ls > i as int - 1 {
                        assert(id@[ls] != '_');
                    }
                }
            }
            let b = s.substring_char(0, i - 1);
            return String::from_str(b);
        }
        i = i - 1;
    }
    proof {
        lemma_last_sep(id@);
        assert(spec_last_sep(id@) < 0) by {
            let ls = spec_last_sep(id@);
            if ls >= 0 {
                assert(id@[ls] != '_');
            }
        }
    }
    String::from_str(s)
}

/// Whether a composite token id parses: it has an underscore, a non-empty
/// all-digit suffix after the last underscore, and the suffix's value fits
/// the counter type.
pub open spec fn spec_parse_ok(id: Seq<char>) -> bool {
    &&& spec_last_sep(id) >= 0
    &&& spec_last_sep(id) + 1 < id.len()
    &&& spec_is_digits(id.skip(spec_last_sep(id) + 1))
    &&& spec_dec_val(id.skip(spec_last_sep(id) + 1)) <= u64::MAX
}

/// Splits a composite token id into its base id and counter, validating
/// the counter suffix.
pub fn parse_token_id(id: &String) -> (r: Result<(String, u64), ContractError>)
    ensures
        match r {
            Ok(p) => {
                &&& spec_parse_ok(id@)
                &&& p.0@ == spec_base_of(id@)
                &&& p.1 as nat == spec_dec_val(id@.skip(spec_last_sep(id@) + 1))
            },
            Err(e) => {
                &&& !spec_parse_ok(id@)
                &&& e matches ContractError::InvalidTokenId { token_id } && token_id@ == id@
            },
        },
{
    let s = id.as_str();
    let n = s.unicode_len();
    let mut i: usize = n;
    while i > 0
        invariant
            i <= n,
            n == id@.len(),
            s@ == id@,
            forall|j: int| i <= j < n ==> id@[j] != '_',
        decreases i,
    {
        if s.get_char(i - 1) == '_' {
            proof {
                lemma_last_sep(id@);
                assert(spec_last_sep(id@) == i - 1) by {
                    let ls = spec_last_sep(id@);
                    if ls < i as int - 1 {
                        assert(id@[i as int - 1] != '_');
                    }
                    if ls > i as int - 1 {
                        assert(id@[ls] != '_');
                    }
                }
            }
            if i == n {
                return Err(ContractError::InvalidTokenId { token_id: id.clone() });
            }
            let ghost suffix = id@.skip(i as int);
            let mut acc: u64 = 0;
            let mut j: usize = i;
            while j < n
                invariant
                    1 <= i <= j <= n,
                    i < n,
                    n == id@.len(),
                    s@ == id@,
                    spec_last_sep(id@) == i - 1,
                    suffix == id@.skip(i as int),
                    spec_is_digits(suffix.take(j - i)),
                    acc as nat == spec_dec_val(suffix.take(j - i)),
                decreases n - j,
            {
                let c = s.get_char(j);
                let d: u64 = match c {
                    '0' => 0,
                    '1' => 1,
                    '2' => 2,
                    '3' => 3,
                    '4' => 4,
                    '5' => 5,
                    '6' => 6,
                    '7' => 7,
                    '8' => 8,
                    '9' => 9,
                    _ => {
                        proof {
                            assert(suffix[j - i] == id@[j as int]);
                            assert(spec_digit_val(suffix[j - i]) == 10);
                        }
                        return Err(ContractError::InvalidTokenId { token_id: id.clone() });
                    },
                };
                proof {
                    assert(spec_digit_val(id@[j as int]) == d);
                }
                let step = match acc.checked_mul(10) {
                    Some(v) => v.checked_add(d),
                    None => None,
                };
                match step {
                    Some(v) => {
                        proof {
                            assert(suffix.take(j - i + 1).drop_last() =~= suffix.take(j - i));
                            assert(suffix.take(j - i + 1).last() == id@[j as int]);
                        }
                        acc = v;
                    },
                    None => {
                        proof {
                            let k = j - i + 1;
                            assert(suffix.take(k).drop_last() =~= suffix.take(j - i));
                            assert(suffix.take(k).last() == id@[j as int]);
                            assert(spec_dec_val(suffix.take(k)) > u64::MAX);
                            lemma_dec_val_prefix(suffix, k);
                        }
                        return Err(ContractError::InvalidTokenId { token_id: id.clone() });
                    },
                }
                j = j + 1;
            }
            proof {
                assert(suffix.take(n - i) =~= suffix);
            }
            let b = s.substring_char(0, i - 1);
            return Ok((String::from_str(b), acc));
        }
        i = i - 1;
    }
    proof {
        lemma_last_sep(id@);
        assert(spec_last_sep(id@) < 0) by {
            let ls = spec_last_sep(id@);
            if ls >= 0 {
                assert(id@[ls] != '_');
            }
        }
    }
    Err(ContractError::InvalidTokenId { token_id: id.clone() })
}

/// Underscores never occur in a decimal counter rendering, so the last
/// underscore of a built id is exactly the separator.
proof fn lemma_last_sep_digit_suffix(s: Seq<char>, t: Seq<char>)
    requires
        forall|i: int| 0 <= i < t.len() ==> t[i] != '_',
    ensures
        spec_last_sep(s + t) == spec_last_sep(s),
    decreases t.len(),
{
    if t.len() == 0 {
        assert(s + t =~= s);
    } else {
        let u = s + t;
        assert(u.last() == t.last());
        assert(u.drop_last() =~= s + t.drop_last());
        lemma_last_sep_digit_suffix(s, t.drop_last());
    }
}

/// Round trip: a built composite id parses back to the base and counter it
/// was built from, whatever the base id contains.
pub proof fn lemma_token_id_round_trip(base: Seq<char>, count: u64)
    ensures
        spec_parse_ok(spec_token_id(base, count as nat)),
        spec_base_of(spec_token_id(base, count as nat)) == base,
        spec_dec_val(
            spec_token_id(base, count as nat).skip(
                spec_last_sep(spec_token_id(base, count as nat)) + 1,
            ),
        ) == count,
{
    let id = spec_token_id(base, count as nat);
    let sep = base + seq!['_'];
    let dec = spec_dec(count as nat);
    lemma_dec(count as nat);
    assert(forall|i: int| 0 <= i < dec.len() ==> dec[i] != '_') by {
        assert(forall|i: int| 0 <= i < dec.len() ==> spec_digit_val(#[trigger] dec[i]) < 10);
        assert(spec_digit_val('_') == 10);
    }
    assert(id =~= sep + dec);
    lemma_last_sep_digit_suffix(sep, dec);
    assert(sep.last() == '_');
    assert(spec_last_sep(sep) == base.len());
    assert(spec_last_sep(id) == base.len());
    assert(id.take(base.len() as int) =~= base);
    assert(id.skip(base.len() as int + 1) =~= dec);
}

} // verus!
