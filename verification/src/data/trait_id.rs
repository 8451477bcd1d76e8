use vstd::prelude::*;

verus! {

/// A trait that a kind of unit may have, which changes how its fights go.
#[derive(Debug, Clone, Copy, PartialEq, Eq, Hash, Structural)]
pub enum TraitId {
    Retaliates,
    ConvertOnHit,
    PoisonOnHit,
    FreezeOnHit,
    NoRetaliationTaken,
    PreemptiveRetaliation,
}

/// The text that names each trait.
pub open spec fn trait_name(t: TraitId) -> Seq<char> {
    match t {
        TraitId::Retaliates => "Retaliates"@,
        TraitId::ConvertOnHit => "ConvertOnHit"@,
        TraitId::PoisonOnHit => "PoisonOnHit"@,
        TraitId::FreezeOnHit => "FreezeOnHit"@,
        TraitId::NoRetaliationTaken => "NoRetaliationTaken"@,
        TraitId::PreemptiveRetaliation => "PreemptiveRetaliation"@,
    }
}

/// Whether `s` names some trait.
pub open spec fn is_trait_name(s: Seq<char>) -> bool {
    exists|t: TraitId| trait_name(t) == s
}

/// What parsing `s` gives: the trait that `s` names, or an error that keeps
/// `s` when it names none.
pub open spec fn parsed_as(s: Seq<char>, r: Result<TraitId, ParseTraitError>) -> bool {
    match r {
        Ok(t) => trait_name(t) == s,
        Err(e) => !is_trait_name(s) && e@ == s,
    }
}

/// No two traits share a name.
pub proof fn lemma_trait_name_injective(t: TraitId, u: TraitId)
    requires
        trait_name(t) == trait_name(u),
    ensures
        t == u,
{
    reveal_strlit("Retaliates");
    reveal_strlit("ConvertOnHit");
    reveal_strlit("PoisonOnHit");
    reveal_strlit("FreezeOnHit");
    reveal_strlit("NoRetaliationTaken");
    reveal_strlit("PreemptiveRetaliation");
    let a = trait_name(t);
    let b = trait_name(u);
    assert(a.len() == b.len() && a[0] == b[0]);
    match t {
        TraitId::Retaliates => assert(a.len() == 10 && a[0] == 'R'),
        TraitId::ConvertOnHit => assert(a.len() == 12 && a[0] == 'C'),
        TraitId::PoisonOnHit => assert(a.len() == 11 && a[0] == 'P'),
        TraitId::FreezeOnHit => assert(a.len() == 11 && a[0] == 'F'),
        TraitId::NoRetaliationTaken => assert(a.len() == 18 && a[0] == 'N'),
        TraitId::PreemptiveRetaliation => assert(a.len() == 21 && a[0] == 'P'),
    }
    match u {
        TraitId::Retaliates => assert(b.len() == 10 && b[0] == 'R'),
        TraitId::ConvertOnHit => assert(b.len() == 12 && b[0] == 'C'),
        TraitId::PoisonOnHit => assert(b.len() == 11 && b[0] == 'P'),
        TraitId::FreezeOnHit => assert(b.len() == 11 && b[0] == 'F'),
        TraitId::NoRetaliationTaken => assert(b.len() == 18 && b[0] == 'N'),
        TraitId::PreemptiveRetaliation => assert(b.len() == 21 && b[0] == 'P'),
    }
}

/// Parsing the name of a trait gives back that trait.
pub proof fn lemma_parse_trait_name(t: TraitId, r: Result<TraitId, ParseTraitError>)
    requires
        parsed_as(trait_name(t), r),
    ensures
        r == Ok::<TraitId, ParseTraitError>(t),
{
    match r {
        Ok(u) => lemma_trait_name_injective(t, u),
        Err(_) => {},
    }
}

/// The error of parsing a string that names no trait; it keeps that string.
#[derive(Debug)]
pub struct ParseTraitError {
    value: String,
}

impl View for ParseTraitError {
    type V = Seq<char>;

    closed spec fn view(&self) -> Seq<char> {
        self.value@
    }
}

impl ParseTraitError {
    /// The string that could not be parsed.
    pub fn value(&self) -> (r: &str)
        ensures
            r@ == self@,
    {
        self.value.as_str()
    }

    /// The message that describes the error.
    pub fn message(&self) -> (r: String)
        ensures
            r@ == "unable to parse string \""@ + self@ + "\" into a TraitId"@,
    {
        let mut m = "unable to parse string \"".to_owned();
        m.append(self.value.as_str());
        m.append("\" into a TraitId");
        m
    }
}

/// Whether `s` holds exactly the characters of `name`.
fn text_is(s: &String, name: &str) -> (r: bool)
    ensures
        r == (s@ == name@),
{
    *s == name.to_owned()
}

impl std::str::FromStr for TraitId {
    type Err = ParseTraitError;

    /// Parses the name of a trait.
    ///
    /// Succeeds exactly on the six trait names, spelled as the variants are;
    /// any other string is refused with an error that keeps it.
    fn from_str(s: &str) -> (r: Result<Self, Self::Err>)
        ensures
            parsed_as(s@, r),
    {
        let owned = s.to_owned();
        if text_is(&owned, "Retaliates") {
            Ok(TraitId::Retaliates)
        } else if text_is(&owned, "ConvertOnHit") {
            Ok(TraitId::ConvertOnHit)
        } else if text_is(&owned, "PoisonOnHit") {
            Ok(TraitId::PoisonOnHit)
        } else if text_is(&owned, "FreezeOnHit") {
            Ok(TraitId::FreezeOnHit)
        } else if text_is(&owned, "NoRetaliationTaken") {
            Ok(TraitId::NoRetaliationTaken)
        } else if text_is(&owned, "PreemptiveRetaliation") {
            Ok(TraitId::PreemptiveRetaliation)
        } else {
            assert forall|t: TraitId| trait_name(t) != s@ by {
                match t {
                    TraitId::Retaliates => {},
                    TraitId::ConvertOnHit => {},
                    TraitId::PoisonOnHit => {},
                    TraitId::FreezeOnHit => {},
                    TraitId::NoRetaliationTaken => {},
                    TraitId::PreemptiveRetaliation => {},
                }
            }
            Err(ParseTraitError { value: owned })
        }
    }
}

} // verus!
