//! The textual flag codec: a bitset of variable attributes whose persistent
//! form is one token per line. Lines combine by bitwise union; an unknown
//! token is a parse failure, never silently dropped.

use vstd::prelude::*;
use vstd::string::*;

use crate::error::Error;
use crate::text::str_eq;

verus! {

pub const NON_VOLATILE: u32 = 0x1;

pub const BOOTSERVICE_ACCESS: u32 = 0x2;

pub const RUNTIME_ACCESS: u32 = 0x4;

pub const HARDWARE_ERROR_RECORD: u32 = 0x8;

pub const AUTHENTICATED_WRITE_ACCESS: u32 = 0x10;

pub const TIME_BASED_AUTHENTICATED_WRITE_ACCESS: u32 = 0x20;

pub const APPEND_WRITE: u32 = 0x40;

pub const ENHANCED_AUTHENTICATED_ACCESS: u32 = 0x80;

/// The union of every known flag bit.
pub const KNOWN_FLAGS: u32 = 0xff;

/// A bitset of independent variable attributes.
#[derive(Clone, Copy, Debug, PartialEq, Eq, Structural)]
pub struct VariableFlags {
    pub bits: u32,
}

/// The flag bit a single textual token denotes, `None` for unknown tokens.
pub open spec fn flag_of_token(s: Seq<char>) -> Option<u32> {
    if s == "NON_VOLATILE"@ {
        Some(NON_VOLATILE)
    } else if s == "BOOTSERVICE_ACCESS"@ {
        Some(BOOTSERVICE_ACCESS)
    } else if s == "RUNTIME_ACCESS"@ {
        Some(RUNTIME_ACCESS)
    } else if s == "HARDWARE_ERROR_RECORD"@ {
        Some(HARDWARE_ERROR_RECORD)
    } else if s == "AUTHENTICATED_WRITE_ACCESS"@ {
        Some(AUTHENTICATED_WRITE_ACCESS)
    } else if s == "TIME_BASED_AUTHENTICATED_WRITE_ACCESS"@ {
        Some(TIME_BASED_AUTHENTICATED_WRITE_ACCESS)
    } else if s == "APPEND_WRITE"@ {
        Some(APPEND_WRITE)
    } else if s == "ENHANCED_AUTHENTICATED_ACCESS"@ {
        Some(ENHANCED_AUTHENTICATED_ACCESS)
    } else {
        None
    }
}

/// The flag bit at position `k` of the fixed serialization order.
pub open spec fn bit_of_index(k: int) -> u32 {
    if k == 0 {
        NON_VOLATILE
    } else if k == 1 {
        BOOTSERVICE_ACCESS
    } else if k == 2 {
        RUNTIME_ACCESS
    } else if k == 3 {
        HARDWARE_ERROR_RECORD
    } else if k == 4 {
        AUTHENTICATED_WRITE_ACCESS
    } else if k == 5 {
        TIME_BASED_AUTHENTICATED_WRITE_ACCESS
    } else if k == 6 {
        APPEND_WRITE
    } else {
        ENHANCED_AUTHENTICATED_ACCESS
    }
}

/// The token written for the flag bit at position `k`.
pub open spec fn token_of_index(k: int) -> Seq<char> {
    if k == 0 {
        "NON_VOLATILE"@
    } else if k == 1 {
        "BOOTSERVICE_ACCESS"@
    } else if k == 2 {
        "RUNTIME_ACCESS"@
    } else if k == 3 {
        "HARDWARE_ERROR_RECORD"@
    } else if k == 4 {
        "AUTHENTICATED_WRITE_ACCESS"@
    } else if k == 5 {
        "TIME_BASED_AUTHENTICATED_WRITE_ACCESS"@
    } else if k == 6 {
        "APPEND_WRITE"@
    } else {
        "ENHANCED_AUTHENTICATED_ACCESS"@
    }
}

/// The tokens for the set bits among the first `k` positions, in order.
pub open spec fn tokens_upto(bits: u32, k: int) -> Seq<Seq<char>>
    decreases k,
{
    if k <= 0 {
        Seq::empty()
    } else {
        tokens_upto(bits, k - 1) + if bits & bit_of_index(k - 1) != 0 {
            seq![token_of_index(k - 1)]
        } else {
            Seq::empty()
        }
    }
}

/// The serialized token lines of a flag set.
pub open spec fn flag_tokens(bits: u32) -> Seq<Seq<char>> {
    tokens_upto(bits, 8)
}

/// What folding a sequence of token lines yields: the union of their flag
/// bits, or `None` as soon as one line is unknown.
pub open spec fn parse_tokens(lines: Seq<Seq<char>>) -> Option<u32>
    decreases lines.len(),
{
    if lines.len() == 0 {
        Some(0)
    } else {
        match (flag_of_token(lines[0]), parse_tokens(lines.drop_first())) {
            (Some(b), Some(r)) => Some(b | r),
            _ => None,
        }
    }
}

/// The views of a sequence of owned lines.
pub open spec fn line_views(lines: Seq<String>) -> Seq<Seq<char>> {
    lines.map_values(|l: String| l@)
}

impl VariableFlags {
    /// The empty flag set.
    pub fn empty() -> (r: Self)
        ensures
            r.bits == 0,
    {
        VariableFlags { bits: 0 }
    }

    /// A flag set from raw bits.
    pub fn from_bits(bits: u32) -> (r: Self)
        ensures
            r.bits == bits,
    {
        VariableFlags { bits }
    }

    /// The bitwise union of two flag sets.
    pub fn union(self, other: Self) -> (r: Self)
        ensures
            r.bits == self.bits | other.bits,
    {
        VariableFlags { bits: self.bits | other.bits }
    }

    /// Whether every bit of `other` is set in `self`.
    pub fn contains(self, other: Self) -> (r: bool)
        ensures
            r == (self.bits & other.bits == other.bits),
    {
        self.bits & other.bits == other.bits
    }
}

/// Parse one textual token into its single flag.
pub fn parse_flag_token(s: &str) -> (r: Result<VariableFlags, Error>)
    ensures
        r is Ok <==> flag_of_token(s@) is Some,
        r is Ok ==> Some(r->Ok_0.bits) == flag_of_token(s@),
        r matches Err(e) ==> e matches Error::UnknownFlag { token } && token@ == s@,
{
    if str_eq(s, "NON_VOLATILE") {
        Ok(VariableFlags { bits: NON_VOLATILE })
    } else if str_eq(s, "BOOTSERVICE_ACCESS") {
        Ok(VariableFlags { bits: BOOTSERVICE_ACCESS })
    } else if str_eq(s, "RUNTIME_ACCESS") {
        Ok(VariableFlags { bits: RUNTIME_ACCESS })
    } else if str_eq(s, "HARDWARE_ERROR_RECORD") {
        Ok(VariableFlags { bits: HARDWARE_ERROR_RECORD })
    } else if str_eq(s, "AUTHENTICATED_WRITE_ACCESS") {
        Ok(VariableFlags { bits: AUTHENTICATED_WRITE_ACCESS })
    } else if str_eq(s, "TIME_BASED_AUTHENTICATED_WRITE_ACCESS") {
        Ok(VariableFlags { bits: TIME_BASED_AUTHENTICATED_WRITE_ACCESS })
    } else if str_eq(s, "APPEND_WRITE") {
        Ok(VariableFlags { bits: APPEND_WRITE })
    } else if str_eq(s, "ENHANCED_AUTHENTICATED_ACCESS") {
        Ok(VariableFlags { bits: ENHANCED_AUTHENTICATED_ACCESS })
    } else {
        Err(Error::UnknownFlag { token: s.to_owned() })
    }
}

/// Fold a sequence of token lines into one flag set by bitwise union,
/// failing on the first unknown token.
pub fn parse_flag_lines(lines: &Vec<String>) -> (r: Result<VariableFlags, Error>)
    ensures
        r is Ok <==> parse_tokens(line_views(lines@)) is Some,
        r is Ok ==> Some(r->Ok_0.bits) == parse_tokens(line_views(lines@)),
        r matches Err(e) ==> e is UnknownFlag,
{
    let ghost views = line_views(lines@);
    let mut acc: u32 = 0;
    let mut i: usize = 0;
    proof {
        assert(views.subrange(0, views.len() as int) =~= views);
        if parse_tokens(views) is Some {
            let rv = parse_tokens(views)->0;
            assert((0u32 | rv) == rv) by (bit_vector);
        }
    }
    while i < lines.len()
        invariant
            i <= lines.len(),
            views == line_views(lines@),
            views.len() == lines@.len(),
            forall|j: int| 0 <= j < views.len() ==> views[j] == lines@[j]@,
            match parse_tokens(views.subrange(i as int, views.len() as int)) {
                Some(rest) => parse_tokens(views) == Some(acc | rest),
                None => parse_tokens(views) is None,
            },
        decreases lines.len() - i,
    {
        let ghost pre = views.subrange(i as int, views.len() as int);
        proof {
            assert(pre[0] == views[i as int]);
            assert(pre.drop_first() =~= views.subrange(i as int + 1, views.len() as int));
        }
        match parse_flag_token(lines[i].as_str()) {
            Ok(f) => {
                proof {
                    let rest2 = parse_tokens(views.subrange(i as int + 1, views.len() as int));
                    if rest2 is Some {
                        let fb = f.bits;
                        let rv = rest2->0;
                        assert((acc | (fb | rv)) == ((acc | fb) | rv)) by (bit_vector);
                    }
                }
                acc = acc | f.bits;
            },
            Err(e) => {
                return Err(e);
            },
        }
        i += 1;
    }
    proof {
        assert(views.subrange(views.len() as int, views.len() as int) =~= Seq::empty());
        assert((acc | 0u32) == acc) by (bit_vector);
    }
    Ok(VariableFlags { bits: acc })
}

/// Serialize a flag set to its token lines, one known flag per line, in the
/// fixed order of the flag bits.
#[verifier::rlimit(60)]
pub fn serialize_flag_tokens(flags: VariableFlags) -> (r: Vec<String>)
    ensures
        line_views(r@) == flag_tokens(flags.bits),
{
    let bits = flags.bits;
    let mut out: Vec<String> = Vec::new();
    proof {
        assert(line_views(out@) =~= tokens_upto(bits, 0));
    }
    if bits & NON_VOLATILE != 0 {
        out.push(String::from_str("NON_VOLATILE"));
    }
    proof {
        assert(line_views(out@) =~= tokens_upto(bits, 1));
    }
    if bits & BOOTSERVICE_ACCESS != 0 {
        out.push(String::from_str("BOOTSERVICE_ACCESS"));
    }
    proof {
        assert(line_views(out@) =~= tokens_upto(bits, 2));
    }
    if bits & RUNTIME_ACCESS != 0 {
        out.push(String::from_str("RUNTIME_ACCESS"));
    }
    proof {
        assert(line_views(out@) =~= tokens_upto(bits, 3));
    }
    if bits & HARDWARE_ERROR_RECORD != 0 {
        out.push(String::from_str("HARDWARE_ERROR_RECORD"));
    }
    proof {
        assert(line_views(out@) =~= tokens_upto(bits, 4));
    }
    if bits & AUTHENTICATED_WRITE_ACCESS != 0 {
        out.push(String::from_str("AUTHENTICATED_WRITE_ACCESS"));
    }
    proof {
        assert(line_views(out@) =~= tokens_upto(bits, 5));
    }
    if bits & TIME_BASED_AUTHENTICATED_WRITE_ACCESS != 0 {
        out.push(String::from_str("TIME_BASED_AUTHENTICATED_WRITE_ACCESS"));
    }
    proof {
        assert(line_views(out@) =~= tokens_upto(bits, 6));
    }
    if bits & APPEND_WRITE != 0 {
        out.push(String::from_str("APPEND_WRITE"));
    }
    proof {
        assert(line_views(out@) =~= tokens_upto(bits, 7));
    }
    if bits & ENHANCED_AUTHENTICATED_ACCESS != 0 {
        out.push(String::from_str("ENHANCED_AUTHENTICATED_ACCESS"));
    }
    proof {
        assert(line_views(out@) =~= tokens_upto(bits, 8));
    }
    out
}

/// The persistent text of a sequence of lines: each line followed by one
/// newline.
pub open spec fn joined_lines(lines: Seq<Seq<char>>) -> Seq<char>
    decreases lines.len(),
{
    if lines.len() == 0 {
        Seq::empty()
    } else {
        joined_lines(lines.drop_last()) + lines.last() + "\n"@
    }
}

/// Serialize a flag set to the text persisted in an attributes file.
pub fn render_attributes(flags: VariableFlags) -> (r: String)
    ensures
        r@ == joined_lines(flag_tokens(flags.bits)),
{
    let tokens = serialize_flag_tokens(flags);
    let ghost views = line_views(tokens@);
    let mut out = String::new();
    let mut i: usize = 0;
    proof {
        assert(out@ =~= joined_lines(views.subrange(0, 0)));
    }
    while i < tokens.len()
        invariant
            i <= tokens.len(),
            views == line_views(tokens@),
            views.len() == tokens@.len(),
            forall|j: int| 0 <= j < views.len() ==> views[j] == tokens@[j]@,
            out@ == joined_lines(views.subrange(0, i as int)),
        decreases tokens.len() - i,
    {
        out.append(tokens[i].as_str());
        out.append("\n");
        proof {
            let pre = views.subrange(0, i as int + 1);
            assert(pre.drop_last() =~= views.subrange(0, i as int));
            assert(pre.last() == views[i as int]);
            assert(out@ =~= joined_lines(pre));
        }
        i += 1;
    }
    proof {
        assert(views.subrange(0, views.len() as int) =~= views);
    }
    out
}

/// The union of the set bits among the first `k` positions.
pub open spec fn mask_upto(k: int) -> u32
    decreases k,
{
    if k <= 0 {
        0
    } else {
        mask_upto(k - 1) | bit_of_index(k - 1)
    }
}

proof fn lemma_parse_tokens_append(a: Seq<Seq<char>>, b: Seq<Seq<char>>)
    ensures
        parse_tokens(a + b) == match (parse_tokens(a), parse_tokens(b)) {
            (Some(x), Some(y)) => Some(x | y),
            _ => None::<u32>,
        },
    decreases a.len(),
{
    if a.len() == 0 {
        assert(a + b =~= b);
        if parse_tokens(b) is Some {
            let y = parse_tokens(b)->0;
            assert((0u32 | y) == y) by (bit_vector);
        }
    } else {
        assert((a + b).len() > 0);
        assert((a + b)[0] == a[0]);
        assert((a + b).drop_first() =~= a.drop_first() + b);
        lemma_parse_tokens_append(a.drop_first(), b);
        match (flag_of_token(a[0]), parse_tokens(a.drop_first()), parse_tokens(b)) {
            (Some(f), Some(x), Some(y)) => {
                assert((f | (x | y)) == ((f | x) | y)) by (bit_vector);
            },
            _ => {},
        }
    }
}

/// Parsing one serialized token recovers its flag bit.
proof fn lemma_token_maps_back(k: int)
    requires
        0 <= k < 8,
    ensures
        flag_of_token(token_of_index(k)) == Some(bit_of_index(k)),
{
    reveal_strlit("NON_VOLATILE");
    reveal_strlit("BOOTSERVICE_ACCESS");
    reveal_strlit("RUNTIME_ACCESS");
    reveal_strlit("HARDWARE_ERROR_RECORD");
    reveal_strlit("AUTHENTICATED_WRITE_ACCESS");
    reveal_strlit("TIME_BASED_AUTHENTICATED_WRITE_ACCESS");
    reveal_strlit("APPEND_WRITE");
    reveal_strlit("ENHANCED_AUTHENTICATED_ACCESS");
    assert("NON_VOLATILE"@.len() == 12);
    assert("BOOTSERVICE_ACCESS"@.len() == 18);
    assert("RUNTIME_ACCESS"@.len() == 14);
    assert("HARDWARE_ERROR_RECORD"@.len() == 21);
    assert("AUTHENTICATED_WRITE_ACCESS"@.len() == 26);
    assert("TIME_BASED_AUTHENTICATED_WRITE_ACCESS"@.len() == 37);
    assert("APPEND_WRITE"@.len() == 12);
    assert("ENHANCED_AUTHENTICATED_ACCESS"@.len() == 29);
    assert("NON_VOLATILE"@[0] == 'N');
    assert("APPEND_WRITE"@[0] == 'A');
}

proof fn lemma_round_trip_upto(bits: u32, k: int)
    requires
        0 <= k <= 8,
    ensures
        parse_tokens(tokens_upto(bits, k)) == Some(bits & mask_upto(k)),
    decreases k,
{
    if k == 0 {
        assert(bits & 0u32 == 0u32) by (bit_vector);
    } else {
        lemma_round_trip_upto(bits, k - 1);
        let prev = tokens_upto(bits, k - 1);
        let bit = bit_of_index(k - 1);
        let mprev = mask_upto(k - 1);
        if bits & bit != 0 {
            let tail = seq![token_of_index(k - 1)];
            lemma_token_maps_back(k - 1);
            assert(tail.drop_first() =~= Seq::<Seq<char>>::empty());
            assert(parse_tokens(Seq::<Seq<char>>::empty()) == Some(0u32));
            assert(parse_tokens(tail) == Some(bit | 0u32));
            lemma_parse_tokens_append(prev, tail);
            assert(bit == 0x1u32 || bit == 0x2u32 || bit == 0x4u32 || bit == 0x8u32 || bit
                == 0x10u32 || bit == 0x20u32 || bit == 0x40u32 || bit == 0x80u32);
            assert(((bits & mprev) | (bit | 0u32)) == bits & (mprev | bit)) by (bit_vector)
                requires
                    bits & bit != 0,
                    bit == 0x1u32 || bit == 0x2u32 || bit == 0x4u32 || bit == 0x8u32 || bit
                        == 0x10u32 || bit == 0x20u32 || bit == 0x40u32 || bit == 0x80u32,
            ;
        } else {
            assert(tokens_upto(bits, k) =~= prev + Seq::<Seq<char>>::empty());
            lemma_parse_tokens_append(prev, Seq::empty());
            assert(((bits & mprev) | 0u32) == bits & (mprev | bit)) by (bit_vector)
                requires
                    bits & bit == 0,
            ;
        }
    }
}

/// Round-trip law: serializing any flag set made of known tokens and folding
/// the serialized lines back yields the same flag set.
pub proof fn lemma_flags_round_trip(flags: VariableFlags)
    requires
        flags.bits & KNOWN_FLAGS == flags.bits,
    ensures
        parse_tokens(flag_tokens(flags.bits)) == Some(flags.bits),
{
    lemma_round_trip_upto(flags.bits, 8);
    reveal_with_fuel(mask_upto, 9);
    assert(mask_upto(8) == ((((((((0u32 | 0x1) | 0x2) | 0x4) | 0x8) | 0x10) | 0x20) | 0x40)
        | 0x80));
    assert(((((((((0u32 | 0x1) | 0x2) | 0x4) | 0x8) | 0x10) | 0x20) | 0x40) | 0x80) == 0xffu32)
        by (bit_vector);
}

} // verus!
