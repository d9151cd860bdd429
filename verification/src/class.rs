//! The task classes a timer can be tagged with.

use vstd::prelude::*;
use vstd::string::*;

verus! {

/// Number of named classes; the catch-all is not counted.
pub const CLASS_NUM: usize = 7;

/// A task class: seven named classes and a catch-all.
#[derive(Clone, Copy, PartialEq, Eq, Structural, Hash, Debug)]
pub enum Class {
    Health,
    Physics,
    Econ,
    Stats,
    Calc,
    Chem,
    English,
    Other,
}

/// The lowercase form of a text, as `str::to_lowercase` computes it.
pub uninterp spec fn lowercase_of(text: Seq<char>) -> Seq<char>;

/// Calls `str::to_lowercase`. Nothing is proved of the conversion itself:
/// the result is only given the name `lowercase_of`.
#[verifier::external_body]
fn to_lowercase(text: &str) -> (r: String)
    ensures
        r@ == lowercase_of(text@),
{
    text.to_lowercase()
}

fn same_text(text: &str, word: &str) -> (r: bool)
    ensures
        r == (text@ == word@),
{
    let a = String::from_str(text);
    let b = String::from_str(word);
    a == b
}

impl Class {
    /// Position of the class in the canonical order, the catch-all last.
    pub open spec fn ordinal(self) -> int {
        match self {
            Class::Health => 0,
            Class::Physics => 1,
            Class::Econ => 2,
            Class::Stats => 3,
            Class::Calc => 4,
            Class::Chem => 5,
            Class::English => 6,
            Class::Other => 7,
        }
    }

    /// The class at a position of the canonical order.
    pub open spec fn at(i: int) -> Class {
        if i == 0 {
            Class::Health
        } else if i == 1 {
            Class::Physics
        } else if i == 2 {
            Class::Econ
        } else if i == 3 {
            Class::Stats
        } else if i == 4 {
            Class::Calc
        } else if i == 5 {
            Class::Chem
        } else if i == 6 {
            Class::English
        } else {
            Class::Other
        }
    }

    /// Whether the class is one of the seven named ones.
    pub open spec fn is_named(self) -> bool {
        self != Class::Other
    }

    /// The class that an already lowercased text stands for.
    pub open spec fn of_lowercase(text: Seq<char>) -> Class {
        if text == "health"@ {
            Class::Health
        } else if text == "physics"@ {
            Class::Physics
        } else if text == "econ"@ {
            Class::Econ
        } else if text == "stats"@ {
            Class::Stats
        } else if text == "calc"@ {
            Class::Calc
        } else if text == "chem"@ {
            Class::Chem
        } else if text == "english"@ {
            Class::English
        } else {
            Class::Other
        }
    }

    /// The canonical capitalised name.
    pub open spec fn name(self) -> Seq<char> {
        match self {
            Class::Health => "Health"@,
            Class::Physics => "Physics"@,
            Class::Econ => "Econ"@,
            Class::Stats => "Stats"@,
            Class::Calc => "Calc"@,
            Class::Chem => "Chem"@,
            Class::English => "English"@,
            Class::Other => "Other"@,
        }
    }

    /// Matches a lowercased text against the named classes; anything else
    /// is the catch-all.
    pub fn from_lowercase(text: &str) -> (r: Class)
        ensures
            r == Class::of_lowercase(text@),
    {
        if same_text(text, "health") {
            Class::Health
        } else if same_text(text, "physics") {
            Class::Physics
        } else if same_text(text, "econ") {
            Class::Econ
        } else if same_text(text, "stats") {
            Class::Stats
        } else if same_text(text, "calc") {
            Class::Calc
        } else if same_text(text, "chem") {
            Class::Chem
        } else if same_text(text, "english") {
            Class::English
        } else {
            Class::Other
        }
    }

    /// Parses a class name without regard to case. Never fails.
    pub fn parse(text: &str) -> (r: Class)
        ensures
            r == Class::of_lowercase(lowercase_of(text@)),
    {
        let lowered = to_lowercase(text);
        Class::from_lowercase(lowered.as_str())
    }

    /// The canonical capitalised name as an owned string.
    pub fn to_string(&self) -> (r: String)
        ensures
            r@ == self.name(),
    {
        match self {
            Class::Health => String::from_str("Health"),
            Class::Physics => String::from_str("Physics"),
            Class::Econ => String::from_str("Econ"),
            Class::Stats => String::from_str("Stats"),
            Class::Calc => String::from_str("Calc"),
            Class::Chem => String::from_str("Chem"),
            Class::English => String::from_str("English"),
            Class::Other => String::from_str("Other"),
        }
    }

    /// Position of the class in the canonical order.
    pub fn index(self) -> (r: usize)
        ensures
            r == self.ordinal(),
            r < 8,
            Class::at(r as int) == self,
    {
        match self {
            Class::Health => 0,
            Class::Physics => 1,
            Class::Econ => 2,
            Class::Stats => 3,
            Class::Calc => 4,
            Class::Chem => 5,
            Class::English => 6,
            Class::Other => 7,
        }
    }

    /// The class at a position; positions past the named classes give the
    /// catch-all.
    pub fn from_index(i: usize) -> (r: Class)
        ensures
            r == Class::at(i as int),
            i < 8 ==> r.ordinal() == i,
    {
        if i == 0 {
            Class::Health
        } else if i == 1 {
            Class::Physics
        } else if i == 2 {
            Class::Econ
        } else if i == 3 {
            Class::Stats
        } else if i == 4 {
            Class::Calc
        } else if i == 5 {
            Class::Chem
        } else if i == 6 {
            Class::English
        } else {
            Class::Other
        }
    }

    /// The seven named classes in canonical order.
    pub fn all() -> (r: Vec<Class>)
        ensures
            r@.len() == CLASS_NUM,
            forall|i: int| 0 <= i < 7 ==> r@[i] == Class::at(i),
    {
        let mut out: Vec<Class> = Vec::new();
        out.push(Class::Health);
        out.push(Class::Physics);
        out.push(Class::Econ);
        out.push(Class::Stats);
        out.push(Class::Calc);
        out.push(Class::Chem);
        out.push(Class::English);
        out
    }
}

impl From<String> for Class {
    fn from(value: String) -> (r: Class) {
        Class::parse(value.as_str())
    }
}

impl vstd::std_specs::convert::FromSpecImpl<String> for Class {
    open spec fn obeys_from_spec() -> bool {
        true
    }

    open spec fn from_spec(value: String) -> Class {
        Class::of_lowercase(lowercase_of(value@))
    }
}

} // verus!
