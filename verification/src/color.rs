//! Colour resolution: a colour argument holds hex digits somewhere (an
//! optional leading `#` before them), and its first maximal hex run decodes
//! into the three RGB channel bytes.

use vstd::prelude::*;
use crate::errors::SetupError;
use crate::text::{chars_to_string, str_to_chars};

verus! {

/// An RGB colour, one byte per channel.
#[derive(Clone, Copy, PartialEq, Eq, Structural, Debug)]
pub struct Rgb {
    pub r: u8,
    pub g: u8,
    pub b: u8,
}

/// Whether `c` is a hexadecimal digit.
pub open spec fn is_hex_digit(c: char) -> bool {
    ||| 48 <= c as u32 <= 57
    ||| 65 <= c as u32 <= 70
    ||| 97 <= c as u32 <= 102
}

/// The numeric value of the hex digit `c`.
pub open spec fn hex_val(c: char) -> nat {
    if 48 <= c as u32 <= 57 {
        (c as u32 - 48) as nat
    } else if 65 <= c as u32 <= 70 {
        (c as u32 - 55) as nat
    } else {
        (c as u32 - 87) as nat
    }
}

/// Text that decodes into full bytes: hex digits only, two per byte.
pub open spec fn valid_hex(s: Seq<char>) -> bool {
    s.len() % 2 == 0 && (forall|i: int| 0 <= i < s.len() ==> is_hex_digit(#[trigger] s[i]))
}

/// The bytes the hex text `s` spells, two digits per byte, high digit
/// first.
pub open spec fn hex_bytes(s: Seq<char>) -> Seq<u8>
    decreases s.len(),
{
    if s.len() < 2 {
        Seq::<u8>::empty()
    } else {
        seq![(hex_val(s[0]) * 16 + hex_val(s[1])) as u8] + hex_bytes(s.skip(2))
    }
}

/// Hex text spells one byte per digit pair.
pub proof fn lemma_hex_bytes_len(s: Seq<char>)
    ensures
        hex_bytes(s).len() == s.len() / 2,
    decreases s.len(),
{
    if s.len() >= 2 {
        lemma_hex_bytes_len(s.skip(2));
    }
}

/// The run of hex digits `s` starts with.
pub open spec fn leading_hex(s: Seq<char>) -> Seq<char>
    decreases s.len(),
{
    if s.len() > 0 && is_hex_digit(s[0]) {
        seq![s[0]] + leading_hex(s.drop_first())
    } else {
        Seq::<char>::empty()
    }
}

/// The first maximal run of hex digits in `s`; empty when `s` has no hex
/// digit at all.
pub open spec fn first_hex_run(s: Seq<char>) -> Seq<char>
    decreases s.len(),
{
    if s.len() == 0 {
        Seq::<char>::empty()
    } else if is_hex_digit(s[0]) {
        leading_hex(s)
    } else {
        first_hex_run(s.drop_first())
    }
}

proof fn lemma_leading_hex_digits(s: Seq<char>)
    ensures
        forall|i: int| 0 <= i < leading_hex(s).len() ==> is_hex_digit(#[trigger] leading_hex(s)[i]),
    decreases s.len(),
{
    if s.len() > 0 && is_hex_digit(s[0]) {
        lemma_leading_hex_digits(s.drop_first());
        let l = leading_hex(s);
        assert forall|i: int| 0 <= i < l.len() implies is_hex_digit(l[i]) by {
            if i == 0 {
                assert(l[0] == s[0]);
            } else {
                assert(l[i] == leading_hex(s.drop_first())[i - 1]);
            }
        }
    }
}

/// Every character of the first hex run is a hex digit.
pub proof fn lemma_first_hex_run_digits(s: Seq<char>)
    ensures
        forall|i: int|
            0 <= i < first_hex_run(s).len() ==> is_hex_digit(#[trigger] first_hex_run(s)[i]),
    decreases s.len(),
{
    if s.len() == 0 {
    } else if is_hex_digit(s[0]) {
        lemma_leading_hex_digits(s);
        assert(first_hex_run(s) == leading_hex(s));
    } else {
        lemma_first_hex_run_digits(s.drop_first());
        assert(first_hex_run(s) == first_hex_run(s.drop_first()));
    }
}

/// The colour a colour argument resolves to: its first maximal hex run
/// decoded into bytes, of which the first three are the channels. No hex
/// digits or fewer than three bytes reject the argument, as does a run of
/// odd length.
pub open spec fn resolve_color_spec(s: Seq<char>) -> Result<Rgb, SetupError> {
    let run = first_hex_run(s);
    if run.len() == 0 {
        Err(SetupError::InvalidColorFormat)
    } else if run.len() % 2 != 0 {
        Err(SetupError::OddHexLength)
    } else if hex_bytes(run).len() < 3 {
        Err(SetupError::InvalidColorFormat)
    } else {
        Ok(Rgb { r: hex_bytes(run)[0], g: hex_bytes(run)[1], b: hex_bytes(run)[2] })
    }
}

/// An optional colour argument resolves to an optional colour: absent stays
/// absent, present must resolve.
pub open spec fn resolve_opt_color_spec(s: Option<Seq<char>>) -> Result<Option<Rgb>, SetupError> {
    match s {
        None => Ok(None),
        Some(t) => match resolve_color_spec(t) {
            Ok(c) => Ok(Some(c)),
            Err(e) => Err(e),
        },
    }
}

/// The view of an optional borrowed string.
pub open spec fn opt_str_view(s: Option<&str>) -> Option<Seq<char>> {
    match s {
        None => None,
        Some(t) => Some(t@),
    }
}

#[verifier::external_type_specification]
#[verifier::external_body]
pub struct ExFromHexError(hex::FromHexError);

/// Relies on `hex::decode`: decoding succeeds exactly on even-length,
/// all-hex-digit text, and then yields one byte per digit pair, high digit
/// first.
#[verifier::external_body]
fn hex_decode(s: &str) -> (r: Result<Vec<u8>, hex::FromHexError>)
    ensures
        r is Ok <==> valid_hex(s@),
        r matches Ok(v) ==> v@ == hex_bytes(s@),
{
    hex::decode(s)
}

/// Index of the first hex digit of `s` at or after `from`, if any.
fn find_hex_from(s: &Vec<char>, from: usize) -> (r: Option<usize>)
    requires
        from <= s@.len(),
    ensures
        match r {
            Some(i) => from <= i < s@.len() && is_hex_digit(s@[i as int]) && first_hex_run(
                s@.skip(from as int),
            ) == leading_hex(s@.skip(i as int)),
            None => first_hex_run(s@.skip(from as int)) == Seq::<char>::empty(),
        },
{
    let n: usize = s.len();
    let mut i: usize = from;
    loop
        invariant
            n == s@.len(),
            from <= i <= n,
            first_hex_run(s@.skip(from as int)) == first_hex_run(s@.skip(i as int)),
        decreases n - i,
    {
        if i == n {
            proof {
                assert(s@.skip(n as int) =~= Seq::<char>::empty());
            }
            return None;
        }
        if is_hex_exec(s[i]) {
            proof {
                assert(s@.skip(i as int)[0] == s@[i as int]);
                assert(first_hex_run(s@.skip(i as int)) == leading_hex(s@.skip(i as int)));
            }
            return Some(i);
        }
        i = i + 1;
        proof {
            assert(s@.skip(i as int - 1).drop_first() =~= s@.skip(i as int));
        }
    }
}

/// The first maximal run of hex digits in `s`, computed.
pub fn extract_hex_run(s: &Vec<char>) -> (r: Vec<char>)
    ensures
        r@ == first_hex_run(s@),
{
    let n: usize = s.len();
    proof {
        assert(s@.skip(0) =~= s@);
    }
    let start: usize = match find_hex_from(s, 0) {
        None => {
            let r: Vec<char> = Vec::new();
            return r;
        },
        Some(i) => i,
    };
    let mut out: Vec<char> = Vec::new();
    let mut j: usize = start;
    loop
        invariant
            n == s@.len(),
            start <= j <= n,
            first_hex_run(s@) == out@ + leading_hex(s@.skip(j as int)),
        decreases n - j,
    {
        if j == n {
            proof {
                assert(s@.skip(n as int) =~= Seq::<char>::empty());
                assert(out@ =~= out@ + leading_hex(s@.skip(j as int)));
            }
            return out;
        }
        if !is_hex_exec(s[j]) {
            proof {
                assert(s@.skip(j as int)[0] == s@[j as int]);
                assert(leading_hex(s@.skip(j as int)) =~= Seq::<char>::empty());
                assert(out@ =~= out@ + leading_hex(s@.skip(j as int)));
            }
            return out;
        }
        out.push(s[j]);
        j = j + 1;
        proof {
            let prev = s@.skip(j as int - 1);
            assert(prev[0] == s@[j as int - 1]);
            assert(prev.drop_first() =~= s@.skip(j as int));
            assert(leading_hex(prev) == seq![s@[j as int - 1]] + leading_hex(s@.skip(j as int)));
            assert(out@ + leading_hex(s@.skip(j as int)) =~= (out@.drop_last() + leading_hex(
                prev,
            )));
        }
    }
}

/// Whether `c` is a hexadecimal digit, computed.
pub fn is_hex_exec(c: char) -> (r: bool)
    ensures
        r == is_hex_digit(c),
{
    let u: u32 = c as u32;
    (48 <= u && u <= 57) || (65 <= u && u <= 70) || (97 <= u && u <= 102)
}

/// Resolve one optional colour argument: extract the first hex run and
/// decode it; the first three decoded bytes are the channels.
pub fn resolve_color(input: Option<&str>) -> (r: Result<Option<Rgb>, SetupError>)
    ensures
        r == resolve_opt_color_spec(opt_str_view(input)),
{
    match input {
        None => Ok(None),
        Some(s) => {
            let cs: Vec<char> = str_to_chars(s);
            let run: Vec<char> = extract_hex_run(&cs);
            if run.len() == 0 {
                Err(SetupError::InvalidColorFormat)
            } else if run.len() % 2 != 0 {
                Err(SetupError::OddHexLength)
            } else {
                proof {
                    lemma_first_hex_run_digits(s@);
                    lemma_hex_bytes_len(run@);
                }
                let run_s: String = chars_to_string(&run);
                match hex_decode(run_s.as_str()) {
                    Ok(bytes) => {
                        if bytes.len() < 3 {
                            Err(SetupError::InvalidColorFormat)
                        } else {
                            Ok(Some(Rgb { r: bytes[0], g: bytes[1], b: bytes[2] }))
                        }
                    },
                    Err(_) => {
                        proof {
                            assert(false);
                        }
                        Err(SetupError::DecodeError)
                    },
                }
            }
        },
    }
}

/// A leading `#` changes nothing: it is no hex digit, so it never joins the
/// first hex run, and a colour argument resolves the same with it as
/// without it.
pub proof fn lemma_hash_ignored(s: Seq<char>)
    ensures
        resolve_color_spec(seq!['#'] + s) == resolve_color_spec(s),
{
    let t = seq!['#'] + s;
    assert(!is_hex_digit('#'));
    assert(t.drop_first() =~= s);
}

} // verus!
