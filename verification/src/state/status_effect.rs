use vstd::prelude::*;

verus! {

/// A set of status effects, stored as a bit set.
///
/// Each named effect owns one bit: `POISONED` bit 0, `FROZEN` bit 1,
/// `VETERAN` bit 2, `FORTIFIED` bit 3 and `WALLED` bit 4.
#[derive(Clone, Copy, PartialEq, Eq, Structural)]
pub struct StatusFlags {
    bits: u32,
}

/// The bits that no named effect owns.
pub open spec fn unnamed_bits(bits: u32) -> u32 {
    bits & 0xffff_ffe0u32
}

/// The names of the effects that `bits` holds, in the order of their bits.
pub open spec fn flag_names(bits: u32) -> Seq<Seq<char>> {
    (if bits & 1 == 1 { seq!["POISONED"@] } else { Seq::empty() })
        + (if bits & 2 == 2 { seq!["FROZEN"@] } else { Seq::empty() })
        + (if bits & 4 == 4 { seq!["VETERAN"@] } else { Seq::empty() })
        + (if bits & 8 == 8 { seq!["FORTIFIED"@] } else { Seq::empty() })
        + (if bits & 16 == 16 { seq!["WALLED"@] } else { Seq::empty() })
}

/// The names joined with `" | "` between them.
pub open spec fn join_names(names: Seq<Seq<char>>) -> Seq<char>
    decreases names.len(),
{
    if names.len() == 0 {
        Seq::empty()
    } else if names.len() == 1 {
        names[0]
    } else {
        join_names(names.drop_last()) + " | "@ + names.last()
    }
}

/// The text of a set: the names of its effects joined with `" | "`, or `0x0`
/// for the empty set.
pub open spec fn flags_text(bits: u32) -> Seq<char> {
    if bits == 0 {
        "0x0"@
    } else {
        join_names(flag_names(bits))
    }
}

proof fn lemma_join_push(names: Seq<Seq<char>>, name: Seq<char>)
    ensures
        join_names(names.push(name)) == if names.len() == 0 {
            name
        } else {
            join_names(names) + " | "@ + name
        },
{
    assert(names.push(name).drop_last() =~= names);
}

/// Appends `name` to the text of the names written so far; `written` tells
/// whether any name was written before.
fn push_name(text: &mut String, written: bool, names: Ghost<Seq<Seq<char>>>, name: &str)
    requires
        old(text)@ == join_names(names@),
        written == (names@.len() > 0),
    ensures
        final(text)@ == join_names(names@.push(name@)),
{
    proof {
        lemma_join_push(names@, name@);
    }
    if written {
        text.append(" | ");
    }
    text.append(name);
}

/// Text that shows as itself in `Debug` output.
struct DebugText {
    text: String,
}

impl std::fmt::Debug for DebugText {
    /// Writes the text as it stands, with `Formatter::write_str`.
    #[verifier::external_body]
    fn fmt(&self, f: &mut std::fmt::Formatter<'_>) -> std::fmt::Result {
        f.write_str(&self.text)
    }
}

impl std::fmt::Debug for StatusFlags {
    /// Shows the set as `StatusFlags(..)` around its text, through
    /// `Formatter::debug_tuple`.
    #[verifier::external_body]
    fn fmt(&self, f: &mut std::fmt::Formatter<'_>) -> std::fmt::Result {
        f.debug_tuple("StatusFlags").field(&DebugText { text: self.flag_text() }).finish()
    }
}

impl StatusFlags {
    /// Only the five named effects own bits.
    #[verifier::type_invariant]
    spec fn only_named_bits(self) -> bool {
        unnamed_bits(self.bits) == 0
    }

    /// The set that holds `POISONED` alone.
    pub fn poisoned() -> (r: StatusFlags)
        ensures
            r.spec_bits() == 1,
    {
        assert(1u32 & 0xffff_ffe0u32 == 0) by (bit_vector);
        StatusFlags { bits: 1 }
    }

    /// The set that holds `FROZEN` alone.
    pub fn frozen() -> (r: StatusFlags)
        ensures
            r.spec_bits() == 2,
    {
        assert(2u32 & 0xffff_ffe0u32 == 0) by (bit_vector);
        StatusFlags { bits: 2 }
    }

    /// The set that holds `VETERAN` alone.
    pub fn veteran() -> (r: StatusFlags)
        ensures
            r.spec_bits() == 4,
    {
        assert(4u32 & 0xffff_ffe0u32 == 0) by (bit_vector);
        StatusFlags { bits: 4 }
    }

    /// The set that holds `FORTIFIED` alone.
    pub fn fortified() -> (r: StatusFlags)
        ensures
            r.spec_bits() == 8,
    {
        assert(8u32 & 0xffff_ffe0u32 == 0) by (bit_vector);
        StatusFlags { bits: 8 }
    }

    /// The set that holds `WALLED` alone.
    pub fn walled() -> (r: StatusFlags)
        ensures
            r.spec_bits() == 16,
    {
        assert(16u32 & 0xffff_ffe0u32 == 0) by (bit_vector);
        StatusFlags { bits: 16 }
    }

    /// The raw bits of the set.
    pub closed spec fn spec_bits(self) -> u32 {
        self.bits
    }

    /// Whether every bit of `other` is set in `self`.
    pub open spec fn spec_contains(self, other: StatusFlags) -> bool {
        self.spec_bits() & other.spec_bits() == other.spec_bits()
    }

    pub open spec fn is_poisoned(self) -> bool {
        self.spec_bits() & 1 == 1
    }

    pub open spec fn is_frozen(self) -> bool {
        self.spec_bits() & 2 == 2
    }

    /// The defense multiplier (fixed point, 1000 = 1) that the set grants.
    ///
    /// A set is matched against `FORTIFIED` and `WALLED` by equality of the whole
    /// set, not by containment: a set that holds another effect besides one of
    /// them gets the default multiplier.
    pub open spec fn spec_defense_bonus(self) -> int {
        if self.is_poisoned() {
            if self.spec_bits() == 8 {
                700
            } else if self.spec_bits() == 16 {
                2000
            } else {
                500
            }
        } else {
            if self.spec_bits() == 8 {
                1500
            } else if self.spec_bits() == 16 {
                4000
            } else {
                1000
            }
        }
    }

    /// The empty set.
    pub fn empty() -> (r: StatusFlags)
        ensures
            r.spec_bits() == 0,
    {
        assert(0u32 & 0xffff_ffe0u32 == 0) by (bit_vector);
        StatusFlags { bits: 0 }
    }

    /// The raw bits of the set.
    pub fn bits(&self) -> (r: u32)
        ensures
            r == self.spec_bits(),
    {
        self.bits
    }

    /// Whether every flag of `other` is in `self`.
    pub fn contains(&self, other: StatusFlags) -> (r: bool)
        ensures
            r == self.spec_contains(other),
    {
        self.bits & other.bits == other.bits
    }

    /// The union of two sets.
    pub fn union(self, other: StatusFlags) -> (r: StatusFlags)
        ensures
            r.spec_bits() == self.spec_bits() | other.spec_bits(),
    {
        proof {
            use_type_invariant(&self);
            use_type_invariant(&other);
            lemma_union_named(self.bits, other.bits);
        }
        StatusFlags { bits: self.bits | other.bits }
    }

    /// Adds the flags of `other` to `self`.
    pub fn insert(&mut self, other: StatusFlags)
        ensures
            final(self).spec_bits() == old(self).spec_bits() | other.spec_bits(),
    {
        proof {
            use_type_invariant(&*self);
            use_type_invariant(&other);
            lemma_union_named(self.bits, other.bits);
        }
        self.bits = self.bits | other.bits;
    }

    /// The text of the set: the names of its effects, in the order of their
    /// bits, joined with `" | "`; `0x0` for the empty set.
    pub fn flag_text(&self) -> (r: String)
        ensures
            r@ == flags_text(self.spec_bits()),
    {
        if self.bits == 0 {
            return "0x0".to_owned();
        }
        let b = self.bits;
        let mut text = String::new();
        let mut written = false;
        let ghost mut names: Seq<Seq<char>> = Seq::empty();
        if b & 1 == 1 {
            push_name(&mut text, written, Ghost(names), "POISONED");
            written = true;
            proof { names = names.push("POISONED"@); }
        }
        let ghost n1 = names;
        if b & 2 == 2 {
            push_name(&mut text, written, Ghost(names), "FROZEN");
            written = true;
            proof { names = names.push("FROZEN"@); }
        }
        let ghost n2 = names;
        if b & 4 == 4 {
            push_name(&mut text, written, Ghost(names), "VETERAN");
            written = true;
            proof { names = names.push("VETERAN"@); }
        }
        let ghost n3 = names;
        if b & 8 == 8 {
            push_name(&mut text, written, Ghost(names), "FORTIFIED");
            written = true;
            proof { names = names.push("FORTIFIED"@); }
        }
        let ghost n4 = names;
        if b & 16 == 16 {
            push_name(&mut text, written, Ghost(names), "WALLED");
            written = true;
            proof { names = names.push("WALLED"@); }
        }
        let ghost p1: Seq<Seq<char>> = if b & 1 == 1 { seq!["POISONED"@] } else { Seq::empty() };
        let ghost p2: Seq<Seq<char>> = if b & 2 == 2 { seq!["FROZEN"@] } else { Seq::empty() };
        let ghost p3: Seq<Seq<char>> = if b & 4 == 4 { seq!["VETERAN"@] } else { Seq::empty() };
        let ghost p4: Seq<Seq<char>> = if b & 8 == 8 { seq!["FORTIFIED"@] } else { Seq::empty() };
        let ghost p5: Seq<Seq<char>> = if b & 16 == 16 { seq!["WALLED"@] } else { Seq::empty() };
        assert(n1 =~= p1);
        assert(n2 =~= p1 + p2);
        assert(n3 =~= p1 + p2 + p3);
        assert(n4 =~= p1 + p2 + p3 + p4);
        assert(names =~= p1 + p2 + p3 + p4 + p5);
        text
    }

    /// The defense multiplier of the set (fixed point, 1000 = 1).
    pub fn defense_bonus(&self) -> (r: i64)
        ensures
            r == self.spec_defense_bonus(),
    {
        if self.contains(Self::poisoned()) {
            if *self == Self::fortified() {
                700
            } else if *self == Self::walled() {
                2000
            } else {
                500
            }
        } else {
            if *self == Self::fortified() {
                1500
            } else if *self == Self::walled() {
                4000
            } else {
                1000
            }
        }
    }
}

proof fn lemma_union_named(a: u32, b: u32)
    requires
        unnamed_bits(a) == 0,
        unnamed_bits(b) == 0,
    ensures
        unnamed_bits(a | b) == 0,
{
    assert(a & 0xffff_ffe0u32 == 0 && b & 0xffff_ffe0u32 == 0 ==> (a | b) & 0xffff_ffe0u32 == 0) by (bit_vector);
}

/// A set is determined by its bits: sets with equal bits are equal.
pub proof fn lemma_bits_determine_set(a: StatusFlags, b: StatusFlags)
    requires
        a.spec_bits() == b.spec_bits(),
    ensures
        a == b,
{
}

/// A poisoned unit always gets the poisoned default multiplier: no poisoned
/// set equals `FORTIFIED` or `WALLED` alone.
pub proof fn lemma_poisoned_defense_bonus(f: StatusFlags)
    requires
        f.is_poisoned(),
    ensures
        f.spec_defense_bonus() == 500,
{
    let b = f.spec_bits();
    assert(b & 1 == 1 ==> b != 8 && b != 16) by (bit_vector);
}

/// What each set of effects is worth, read off its bits: a poisoned set gets
/// 500; otherwise a set that is exactly `FORTIFIED` gets 1500, a set that is
/// exactly `WALLED` gets 4000, and every other set, including one that holds
/// `FORTIFIED` or `WALLED` together with another effect, gets 1000.
pub proof fn lemma_defense_bonus_by_bits(f: StatusFlags)
    ensures
        (f.spec_defense_bonus() == 500) == (f.spec_bits() & 1 == 1),
        (f.spec_defense_bonus() == 1500) == (f.spec_bits() == 8),
        (f.spec_defense_bonus() == 4000) == (f.spec_bits() == 16),
        (f.spec_defense_bonus() == 1000) == (f.spec_bits() & 1 != 1 && f.spec_bits() != 8
            && f.spec_bits() != 16),
        f.spec_defense_bonus() != 700 && f.spec_defense_bonus() != 2000,
{
    let b = f.spec_bits();
    assert(b == 8 ==> b & 1 != 1) by (bit_vector);
    assert(b == 16 ==> b & 1 != 1) by (bit_vector);
}

/// The multiplier is always one of the six values of the table.
pub proof fn lemma_defense_bonus_values(f: StatusFlags)
    ensures
        f.spec_defense_bonus() == 500 || f.spec_defense_bonus() == 700 || f.spec_defense_bonus()
            == 2000 || f.spec_defense_bonus() == 1000 || f.spec_defense_bonus() == 1500
            || f.spec_defense_bonus() == 4000,
        f.spec_defense_bonus() > 0,
{
}

/// After `other` is added to a set, the set contains `other`, and everything
/// it contained before.
pub proof fn lemma_union_contains(f: StatusFlags, other: StatusFlags, r: StatusFlags)
    requires
        r.spec_bits() == f.spec_bits() | other.spec_bits(),
    ensures
        r.spec_contains(other),
        r.spec_contains(f),
{
    let a = f.spec_bits();
    let b = other.spec_bits();
    assert((a | b) & b == b) by (bit_vector);
    assert((a | b) & a == a) by (bit_vector);
}

} // verus!
