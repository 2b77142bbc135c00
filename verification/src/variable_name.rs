//! The variable identity model: a name together with a vendor scope. The
//! canonical textual form is `<name>-<identifier>`, parsing splits at the
//! first `-`, and equality of vendors is semantic: a custom vendor holding
//! the well-known EFI identifier is the EFI vendor.

use vstd::prelude::*;
use vstd::std_specs::cmp::PartialEqSpec;
use vstd::string::*;

use crate::error::Error;
use crate::guid::{guid_parse, guid_string, guid_to_string, lemma_guid_string_injective, parse_guid};
use crate::text::str_eq;
use crate::EFI_GUID;

verus! {

/// An EFI variable vendor identifier.
#[derive(Clone, Copy, Debug)]
pub enum VariableVendor {
    /// The standard EFI vendor namespace.
    Efi,
    /// Any other vendor, identified by its 128-bit identifier.
    Custom(u128),
}

/// The canonical-equivalence rule applied at construction: the well-known
/// identifier is never left as a custom vendor.
pub open spec fn normalize_vendor(g: u128) -> VariableVendor {
    if g == EFI_GUID {
        VariableVendor::Efi
    } else {
        VariableVendor::Custom(g)
    }
}

impl VariableVendor {
    /// The underlying 128-bit identifier of this vendor.
    pub open spec fn guid_spec(&self) -> u128 {
        match *self {
            VariableVendor::Efi => EFI_GUID,
            VariableVendor::Custom(g) => g,
        }
    }

    /// A normalized vendor: the well-known identifier only appears as `Efi`.
    pub open spec fn wf(&self) -> bool {
        match *self {
            VariableVendor::Efi => true,
            VariableVendor::Custom(g) => g != EFI_GUID,
        }
    }

    /// Return true if this vendor is the EFI vendor variant.
    pub fn is_efi(&self) -> (r: bool)
        ensures
            r == (*self is Efi),
    {
        matches!(self, VariableVendor::Efi)
    }

    /// Project this vendor to its underlying identifier.
    pub fn guid(&self) -> (r: u128)
        ensures
            r == self.guid_spec(),
    {
        match self {
            VariableVendor::Efi => EFI_GUID,
            VariableVendor::Custom(g) => *g,
        }
    }
}

impl PartialEq for VariableVendor {
    /// Semantic equality: both sides compare as their underlying identifiers.
    fn eq(&self, other: &Self) -> (r: bool) {
        match self {
            VariableVendor::Efi => match other {
                VariableVendor::Efi => true,
                VariableVendor::Custom(g) => *g == EFI_GUID,
            },
            VariableVendor::Custom(g) => match other {
                VariableVendor::Efi => *g == EFI_GUID,
                VariableVendor::Custom(o) => *o == *g,
            },
        }
    }
}

impl vstd::std_specs::cmp::PartialEqSpecImpl for VariableVendor {
    open spec fn obeys_eq_spec() -> bool {
        true
    }

    open spec fn eq_spec(&self, other: &Self) -> bool {
        self.guid_spec() == other.guid_spec()
    }
}

impl From<u128> for VariableVendor {
    /// Normalizes the well-known identifier to the EFI variant.
    fn from(g: u128) -> (r: Self) {
        if g == EFI_GUID {
            VariableVendor::Efi
        } else {
            VariableVendor::Custom(g)
        }
    }
}

impl vstd::std_specs::convert::FromSpecImpl<u128> for VariableVendor {
    open spec fn obeys_from_spec() -> bool {
        true
    }

    open spec fn from_spec(g: u128) -> Self {
        normalize_vendor(g)
    }
}

/// An EFI variable identity: a name scoped by a vendor.
#[derive(Debug)]
pub struct Variable {
    /// Variable name.
    variable: String,
    /// Vendor identifier.
    vendor: VariableVendor,
}

/// The canonical textual form of an identity: the name, one `-`, and the
/// hyphenated identifier.
pub open spec fn full_name_seq(name: Seq<char>, g: u128) -> Seq<char> {
    name + "-"@ + guid_string(g)
}

/// `i` is the position of the first `-` in `s`.
pub open spec fn is_first_dash(s: Seq<char>, i: int) -> bool {
    &&& 0 <= i < s.len()
    &&& s[i] == '-'
    &&& forall|j: int| 0 <= j < i ==> s[j] != '-'
}

/// What parsing recovers from a canonically formatted identity: the name
/// before the first `-`, and the vendor written after it in canonical form.
pub open spec fn canonical_parse(s: Seq<char>) -> Option<(Seq<char>, VariableVendor)> {
    if exists|i: int| is_first_dash(s, i) {
        let i = choose|i: int| is_first_dash(s, i);
        let suffix = s.subrange(i + 1, s.len() as int);
        if exists|g: u128| suffix == guid_string(g) {
            let g = choose|g: u128| suffix == guid_string(g);
            Some((s.subrange(0, i), normalize_vendor(g)))
        } else {
            None
        }
    } else {
        None
    }
}

/// A character `c` occurring in `name` makes the pattern below hexadecimal.
pub open spec fn is_hex_char(c: char) -> bool {
    ('0' <= c && c <= '9') || ('a' <= c && c <= 'f') || ('A' <= c && c <= 'F')
}

/// The value of one hexadecimal digit.
pub open spec fn hex_char_value(c: char) -> int
    recommends
        is_hex_char(c),
{
    if '0' <= c && c <= '9' {
        c as int - '0' as int
    } else if 'a' <= c && c <= 'f' {
        c as int - 'a' as int + 10
    } else {
        c as int - 'A' as int + 10
    }
}

/// The boot entry number of a name: `Some` exactly for names of eight
/// characters that are `Boot` followed by four hexadecimal digits.
pub open spec fn boot_var_id_spec(name: Seq<char>) -> Option<u16> {
    if name.len() == 8 && name[0] == 'B' && name[1] == 'o' && name[2] == 'o' && name[3] == 't'
        && is_hex_char(name[4]) && is_hex_char(name[5]) && is_hex_char(name[6]) && is_hex_char(
        name[7],
    ) {
        Some(
            (hex_char_value(name[4]) * 0x1000 + hex_char_value(name[5]) * 0x100 + hex_char_value(
                name[6],
            ) * 0x10 + hex_char_value(name[7])) as u16,
        )
    } else {
        None
    }
}

/// The value of one hexadecimal digit character, or `None`.
fn hex_value(c: char) -> (r: Option<u16>)
    ensures
        r is Some <==> is_hex_char(c),
        r is Some ==> r->0 == hex_char_value(c) && r->0 < 16,
{
    let v = c as u32;
    if 48 <= v && v <= 57 {
        Some((v - 48) as u16)
    } else if 97 <= v && v <= 102 {
        Some((v - 97 + 10) as u16)
    } else if 65 <= v && v <= 70 {
        Some((v - 65 + 10) as u16)
    } else {
        None
    }
}

/// The index of the first `-` in `s`, if any.
fn find_first_dash(s: &str) -> (r: Option<usize>)
    ensures
        r is Some ==> is_first_dash(s@, r->0 as int),
        r is None ==> forall|i: int| !is_first_dash(s@, i),
{
    let len = s.unicode_len();
    let mut i: usize = 0;
    while i < len
        invariant
            i <= len,
            len == s@.len(),
            forall|j: int| 0 <= j < i ==> s@[j] != '-',
        decreases len - i,
    {
        if s.get_char(i) == '-' {
            return Some(i);
        }
        i += 1;
    }
    None
}

impl Variable {
    /// The name of this identity.
    pub closed spec fn name_spec(&self) -> Seq<char> {
        self.variable@
    }

    /// The vendor of this identity.
    pub closed spec fn vendor_spec(&self) -> VariableVendor {
        self.vendor
    }

    /// Constructors leave the vendor normalized.
    pub open spec fn wf(&self) -> bool {
        self.vendor_spec().wf()
    }

    /// Create a new EFI standard variable identity.
    pub fn new(variable: &str) -> (r: Self)
        ensures
            r.name_spec() == variable@,
            r.vendor_spec() == VariableVendor::Efi,
            r.wf(),
    {
        Variable { variable: variable.to_owned(), vendor: VariableVendor::Efi }
    }

    /// Create a custom vendor variable identity; the vendor is normalized
    /// through the canonical-equivalence rule.
    pub fn new_with_vendor(variable: &str, vendor: VariableVendor) -> (r: Self)
        ensures
            r.name_spec() == variable@,
            r.vendor_spec() == normalize_vendor(vendor.guid_spec()),
            r.wf(),
    {
        let v = if vendor.guid() == EFI_GUID {
            VariableVendor::Efi
        } else {
            vendor
        };
        Variable { variable: variable.to_owned(), vendor: v }
    }

    /// Get the variable name of this identity.
    pub fn variable(&self) -> (r: &str)
        ensures
            r@ == self.name_spec(),
    {
        self.variable.as_str()
    }

    /// Get the vendor of this identity.
    pub fn vendor(&self) -> (r: &VariableVendor)
        ensures
            *r == self.vendor_spec(),
    {
        &self.vendor
    }

    /// The full canonical textual form, used for round-tripping and for
    /// building filesystem paths.
    pub fn full_name(&self) -> (r: String)
        ensures
            r@ == full_name_seq(self.name_spec(), self.vendor_spec().guid_spec()),
    {
        let mut s = self.variable.clone();
        s.append("-");
        let g = guid_to_string(self.vendor.guid());
        s.append(g.as_str());
        proof {
            assert(s@ =~= full_name_seq(self.name_spec(), self.vendor_spec().guid_spec()));
        }
        s
    }

    /// The short form: the name alone exactly when the vendor is the EFI one,
    /// the full canonical form otherwise.
    pub fn short_name(&self) -> (r: String)
        ensures
            r@ == if self.vendor_spec() is Efi {
                self.name_spec()
            } else {
                full_name_seq(self.name_spec(), self.vendor_spec().guid_spec())
            },
    {
        if self.vendor.is_efi() {
            self.variable.clone()
        } else {
            self.full_name()
        }
    }

    /// The boot entry number, for names of the exact pattern `Boot` followed
    /// by four hexadecimal digits; `None` for every other name.
    pub fn boot_var_id(&self) -> (r: Option<u16>)
        ensures
            r == boot_var_id_spec(self.name_spec()),
    {
        let s = self.variable.as_str();
        let len = s.unicode_len();
        if len != 8 {
            return None;
        }
        if s.get_char(0) != 'B' || s.get_char(1) != 'o' || s.get_char(2) != 'o' || s.get_char(3)
            != 't' {
            return None;
        }
        let d4 = match hex_value(s.get_char(4)) {
            Some(v) => v,
            None => {
                return None;
            },
        };
        let d5 = match hex_value(s.get_char(5)) {
            Some(v) => v,
            None => {
                return None;
            },
        };
        let d6 = match hex_value(s.get_char(6)) {
            Some(v) => v,
            None => {
                return None;
            },
        };
        let d7 = match hex_value(s.get_char(7)) {
            Some(v) => v,
            None => {
                return None;
            },
        };
        Some(d4 * 0x1000 + d5 * 0x100 + d6 * 0x10 + d7)
    }

    /// Parse an identity from its textual form: the name is everything
    /// before the first `-`, the rest must be a 128-bit identifier.
    pub fn from_str(s: &str) -> (r: Result<Variable, Error>)
        ensures
            (forall|i: int| !is_first_dash(s@, i)) <==> (r matches Err(e) && e is InvalidVarName),
            r matches Err(e) ==> (e is InvalidVarName ==> e->InvalidVarName_name@ == s@),
            forall|i: int|
                is_first_dash(s@, i) ==> {
                    let suffix = s@.subrange(i + 1, s@.len() as int);
                    &&& (r is Ok <==> guid_parse(suffix) is Some)
                    &&& (r is Ok ==> r->Ok_0.name_spec() == s@.subrange(0, i)
                        && r->Ok_0.vendor_spec() == normalize_vendor(guid_parse(suffix)->0)
                        && r->Ok_0.wf())
                    &&& (r is Err ==> r->Err_0 is UuidError)
                },
            canonical_parse(s@) is Some ==> ({
                let parsed = canonical_parse(s@)->0;
                r is Ok && r->Ok_0.name_spec() == parsed.0 && r->Ok_0.vendor_spec() == parsed.1
            }),
    {
        let len = s.unicode_len();
        let dash = match find_first_dash(s) {
            Some(i) => i,
            None => {
                proof {
                    lemma_first_dash_unique(s@);
                }
                return Err(Error::InvalidVarName { name: s.to_owned() });
            },
        };
        let name = s.substring_char(0, dash);
        let rest = s.substring_char(dash + 1, len);
        proof {
            lemma_first_dash_unique(s@);
        }
        match parse_guid(rest) {
            Ok(g) => {
                let v = Variable::new_with_vendor(name, VariableVendor::Custom(g));
                proof {
                    if canonical_parse(s@) is Some {
                        let ci = choose|i: int| is_first_dash(s@, i);
                        assert(ci == dash as int);
                        let suffix = s@.subrange(dash as int + 1, s@.len() as int);
                        let cg = choose|g0: u128| suffix == guid_string(g0);
                        if exists|g0: u128| suffix == guid_string(g0) {
                            assert(suffix == guid_string(cg));
                            assert(g == cg);
                        }
                    }
                }
                Ok(v)
            },
            Err(e) => Err(e),
        }
    }
}

impl Clone for Variable {
    /// Cloning preserves the identity exactly.
    fn clone(&self) -> (r: Self)
        ensures
            r == *self,
    {
        Variable { variable: self.variable.clone(), vendor: self.vendor }
    }
}

impl PartialEq for Variable {
    /// Identities are equal when their names match and their vendors compare
    /// equal semantically.
    fn eq(&self, other: &Self) -> (r: bool) {
        str_eq(self.variable.as_str(), other.variable.as_str()) && self.vendor.guid()
            == other.vendor.guid()
    }
}

impl vstd::std_specs::cmp::PartialEqSpecImpl for Variable {
    open spec fn obeys_eq_spec() -> bool {
        true
    }

    open spec fn eq_spec(&self, other: &Self) -> bool {
        self.name_spec() == other.name_spec() && self.vendor_spec().guid_spec()
            == other.vendor_spec().guid_spec()
    }
}

/// The first `-` of a sequence sits at one position only.
pub proof fn lemma_first_dash_unique(s: Seq<char>)
    ensures
        forall|i: int, j: int| is_first_dash(s, i) && is_first_dash(s, j) ==> i == j,
{
    assert forall|i: int, j: int| is_first_dash(s, i) && is_first_dash(s, j) implies i == j by {
        if i < j {
            assert(s[i] != '-');
        }
        if j < i {
            assert(s[j] != '-');
        }
    }
}

/// Vendor-equivalence law: a custom vendor holding the well-known identifier
/// compares equal to the canonical variant in both directions, and
/// construction normalizes it to the canonical variant — so an identity
/// built from either vendor has the EFI vendor, and `short_name` (by its
/// contract) omits the vendor suffix for both.
pub proof fn lemma_vendor_equivalence()
    ensures
        VariableVendor::Custom(EFI_GUID).eq_spec(&VariableVendor::Efi),
        VariableVendor::Efi.eq_spec(&VariableVendor::Custom(EFI_GUID)),
        normalize_vendor(VariableVendor::Custom(EFI_GUID).guid_spec()) == VariableVendor::Efi,
        normalize_vendor(VariableVendor::Efi.guid_spec()) == VariableVendor::Efi,
{
}

/// Round-trip law: parsing the canonical textual form of any identity whose
/// name holds no `-` recovers the name and the normalized vendor; on a
/// normalized vendor it recovers the identity exactly.
pub proof fn lemma_identity_round_trip(name: Seq<char>, vendor: VariableVendor)
    requires
        !name.contains('-'),
    ensures
        canonical_parse(full_name_seq(name, vendor.guid_spec())) == Some(
            (name, normalize_vendor(vendor.guid_spec())),
        ),
        vendor.wf() ==> canonical_parse(full_name_seq(name, vendor.guid_spec())) == Some(
            (name, vendor),
        ),
{
    let g = vendor.guid_spec();
    let full = full_name_seq(name, g);
    reveal_strlit("-");
    assert("-"@.len() == 1);
    assert(full.len() == name.len() + 1 + 36);
    let n = name.len() as int;
    assert(full[n] == '-');
    assert forall|j: int| 0 <= j < n implies full[j] != '-' by {
        assert(full[j] == name[j]);
        assert(!(exists|k: int| 0 <= k < name.len() && name[k] == '-'));
    }
    assert(is_first_dash(full, n));
    lemma_first_dash_unique(full);
    let ci = choose|i: int| is_first_dash(full, i);
    assert(ci == n);
    let suffix = full.subrange(n + 1, full.len() as int);
    assert(suffix =~= guid_string(g));
    assert(exists|g0: u128| suffix == guid_string(g0));
    let cg = choose|g0: u128| suffix == guid_string(g0);
    lemma_guid_string_injective(cg, g);
    assert(full.subrange(0, n) =~= name);
}

} // verus!
