//! The fields by which the pack catalog can be sorted, and their wire names.

use crate::text::same_text;
use vstd::prelude::*;

verus! {

/// A field by which the catalog sorts packs.
#[derive(Debug, Clone, Copy, PartialEq, Eq, Structural)]
pub enum SortField {
    Name,
    Popularity,
    Overall,
    Stream,
    Jumpstream,
    Handstream,
    Jacks,
    Chordjacks,
    Stamina,
    Technical,
}

/// A sort choice as offered to a user: the wire value and a label to show.
#[derive(Debug)]
pub struct SortOption {
    pub value: String,
    pub label: String,
}

/// Every sort field, in the order in which they are offered.
pub open spec fn sort_fields() -> Seq<SortField> {
    seq![
        SortField::Name,
        SortField::Popularity,
        SortField::Overall,
        SortField::Stream,
        SortField::Jumpstream,
        SortField::Handstream,
        SortField::Jacks,
        SortField::Chordjacks,
        SortField::Stamina,
        SortField::Technical,
    ]
}

impl SortField {
    /// The name of the field in a query: lower case.
    pub open spec fn name(self) -> Seq<char> {
        match self {
            SortField::Name => "name"@,
            SortField::Popularity => "popularity"@,
            SortField::Overall => "overall"@,
            SortField::Stream => "stream"@,
            SortField::Jumpstream => "jumpstream"@,
            SortField::Handstream => "handstream"@,
            SortField::Jacks => "jacks"@,
            SortField::Chordjacks => "chordjacks"@,
            SortField::Stamina => "stamina"@,
            SortField::Technical => "technical"@,
        }
    }

    /// The name of the field as shown to a user: capitalised.
    pub open spec fn title(self) -> Seq<char> {
        match self {
            SortField::Name => "Name"@,
            SortField::Popularity => "Popularity"@,
            SortField::Overall => "Overall"@,
            SortField::Stream => "Stream"@,
            SortField::Jumpstream => "Jumpstream"@,
            SortField::Handstream => "Handstream"@,
            SortField::Jacks => "Jacks"@,
            SortField::Chordjacks => "Chordjacks"@,
            SortField::Stamina => "Stamina"@,
            SortField::Technical => "Technical"@,
        }
    }

    /// The field that a query name stands for, if it is one.
    pub open spec fn parse(s: Seq<char>) -> Option<SortField> {
        if s == "name"@ {
            Some(SortField::Name)
        } else if s == "popularity"@ {
            Some(SortField::Popularity)
        } else if s == "overall"@ {
            Some(SortField::Overall)
        } else if s == "stream"@ {
            Some(SortField::Stream)
        } else if s == "jumpstream"@ {
            Some(SortField::Jumpstream)
        } else if s == "handstream"@ {
            Some(SortField::Handstream)
        } else if s == "jacks"@ {
            Some(SortField::Jacks)
        } else if s == "chordjacks"@ {
            Some(SortField::Chordjacks)
        } else if s == "stamina"@ {
            Some(SortField::Stamina)
        } else if s == "technical"@ {
            Some(SortField::Technical)
        } else {
            None
        }
    }

    /// The name of the field in a query.
    pub fn as_str(&self) -> (r: &'static str)
        ensures
            r@ == self.name(),
    {
        match self {
            SortField::Name => "name",
            SortField::Popularity => "popularity",
            SortField::Overall => "overall",
            SortField::Stream => "stream",
            SortField::Jumpstream => "jumpstream",
            SortField::Handstream => "handstream",
            SortField::Jacks => "jacks",
            SortField::Chordjacks => "chordjacks",
            SortField::Stamina => "stamina",
            SortField::Technical => "technical",
        }
    }

    /// The label shown for the field.
    pub fn label(&self) -> (r: &'static str)
        ensures
            r@ == self.title(),
    {
        match self {
            SortField::Name => "Name",
            SortField::Popularity => "Popularity",
            SortField::Overall => "Overall",
            SortField::Stream => "Stream",
            SortField::Jumpstream => "Jumpstream",
            SortField::Handstream => "Handstream",
            SortField::Jacks => "Jacks",
            SortField::Chordjacks => "Chordjacks",
            SortField::Stamina => "Stamina",
            SortField::Technical => "Technical",
        }
    }

    /// Reads a query name. Names are case-sensitive; anything that is not
    /// exactly the name of a field gives `None`.
    pub fn from_str(s: &str) -> (r: Option<Self>)
        ensures
            r == Self::parse(s@),
            r matches Some(f) ==> f.name() == s@,
            r is None ==> forall|f: SortField| f.name() != s@,
    {
        proof {
            lemma_names_differ();
        }
        if same_text(s, "name") {
            Some(SortField::Name)
        } else if same_text(s, "popularity") {
            Some(SortField::Popularity)
        } else if same_text(s, "overall") {
            Some(SortField::Overall)
        } else if same_text(s, "stream") {
            Some(SortField::Stream)
        } else if same_text(s, "jumpstream") {
            Some(SortField::Jumpstream)
        } else if same_text(s, "handstream") {
            Some(SortField::Handstream)
        } else if same_text(s, "jacks") {
            Some(SortField::Jacks)
        } else if same_text(s, "chordjacks") {
            Some(SortField::Chordjacks)
        } else if same_text(s, "stamina") {
            Some(SortField::Stamina)
        } else if same_text(s, "technical") {
            Some(SortField::Technical)
        } else {
            None
        }
    }
}

/// No two sort fields share a query name.
pub proof fn lemma_names_differ()
    ensures
        forall|a: SortField, b: SortField| #[trigger] a.name() == #[trigger] b.name() ==> a == b,
{
    reveal_strlit("name");
    reveal_strlit("popularity");
    reveal_strlit("overall");
    reveal_strlit("stream");
    reveal_strlit("jumpstream");
    reveal_strlit("handstream");
    reveal_strlit("jacks");
    reveal_strlit("chordjacks");
    reveal_strlit("stamina");
    reveal_strlit("technical");
    assert forall|a: SortField, b: SortField| #[trigger] a.name() == #[trigger] b.name() implies a
        == b by {
        let x = a.name();
        let y = b.name();
        if a != b {
            assert(x.len() != y.len() || x[0] != y[0] || x[1] != y[1] || x[2] != y[2]);
        }
    }
}

/// Reading the query name of a field gives the field back.
pub proof fn lemma_parse_name(f: SortField)
    ensures
        SortField::parse(f.name()) == Some(f),
{
    lemma_names_differ();
    assert(SortField::Name.name() == "name"@);
    assert(SortField::Popularity.name() == "popularity"@);
    assert(SortField::Overall.name() == "overall"@);
    assert(SortField::Stream.name() == "stream"@);
    assert(SortField::Jumpstream.name() == "jumpstream"@);
    assert(SortField::Handstream.name() == "handstream"@);
    assert(SortField::Jacks.name() == "jacks"@);
    assert(SortField::Chordjacks.name() == "chordjacks"@);
    assert(SortField::Stamina.name() == "stamina"@);
    assert(SortField::Technical.name() == "technical"@);
}

/// The sort parameter of a query: the field's name, with a leading `-` for
/// descending order.
pub open spec fn sort_string(field: SortField, descending: bool) -> Seq<char> {
    if descending {
        seq!['-'] + field.name()
    } else {
        field.name()
    }
}

/// Writes the sort parameter for a field and a direction.
pub fn build_sort_string(field: SortField, descending: bool) -> (r: String)
    ensures
        r@ == sort_string(field, descending),
{
    if descending {
        proof {
            reveal_strlit("-");
        }
        let r = "-".to_owned().concat(field.as_str());
        assert(r@ =~= seq!['-'] + field.name());
        r
    } else {
        field.as_str().to_owned()
    }
}

/// The option offered for one field.
pub fn sort_option(field: SortField) -> (r: SortOption)
    ensures
        r.value@ == field.name(),
        r.label@ == field.title(),
{
    SortOption { value: field.as_str().to_owned(), label: field.label().to_owned() }
}

/// The sort choices offered to a user: one per field, in the fixed order.
pub fn get_sort_options() -> (r: Vec<SortOption>)
    ensures
        r@.len() == sort_fields().len(),
        forall|i: int|
            0 <= i < r@.len() ==> (#[trigger] r@[i]).value@ == sort_fields()[i].name()
                && r@[i].label@ == sort_fields()[i].title(),
{
    let mut out: Vec<SortOption> = Vec::new();
    out.push(sort_option(SortField::Name));
    out.push(sort_option(SortField::Popularity));
    out.push(sort_option(SortField::Overall));
    out.push(sort_option(SortField::Stream));
    out.push(sort_option(SortField::Jumpstream));
    out.push(sort_option(SortField::Handstream));
    out.push(sort_option(SortField::Jacks));
    out.push(sort_option(SortField::Chordjacks));
    out.push(sort_option(SortField::Stamina));
    out.push(sort_option(SortField::Technical));
    out
}

} // verus!
