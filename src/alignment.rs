//! The moral and ethical alignment of a character.
use vstd::prelude::*;
use vstd::string::*;

verus! {

#[derive(Debug, Clone, Copy, PartialEq, Eq, Structural)]
pub enum Moral {
    Good,
    Neutral,
    Evil,
}

impl Moral {
    pub open spec fn name(self) -> Seq<char> {
        match self {
            Moral::Good => "Good"@,
            Moral::Neutral => "Neutral"@,
            Moral::Evil => "Evil"@,
        }
    }

    /// The name of the value.
    pub fn as_str(&self) -> (r: &'static str)
        ensures
            r@ == self.name(),
    {
        match self {
            Moral::Good => "Good",
            Moral::Neutral => "Neutral",
            Moral::Evil => "Evil",
        }
    }
}

#[derive(Debug, Clone, Copy, PartialEq, Eq, Structural)]
pub enum Ethical {
    Lawful,
    Neutral,
    Chaotic,
}

impl Ethical {
    pub open spec fn name(self) -> Seq<char> {
        match self {
            Ethical::Lawful => "Lawful"@,
            Ethical::Neutral => "Neutral"@,
            Ethical::Chaotic => "Chaotic"@,
        }
    }

    /// The name of the value.
    pub fn as_str(&self) -> (r: &'static str)
        ensures
            r@ == self.name(),
    {
        match self {
            Ethical::Lawful => "Lawful",
            Ethical::Neutral => "Neutral",
            Ethical::Chaotic => "Chaotic",
        }
    }
}

#[derive(Debug, Clone, Copy, PartialEq, Eq, Structural)]
pub struct Alignment {
    pub moral: Moral,
    pub ethical: Ethical,
}

impl Alignment {
    pub fn new(moral: Moral, ethical: Ethical) -> (r: Self)
        ensures
            r.moral == moral,
            r.ethical == ethical,
    {
        Alignment { moral, ethical }
    }

    /// The moral name, a space, and the ethical name.
    pub fn describe(&self) -> (r: String)
        ensures
            r@ == self.moral.name() + " "@ + self.ethical.name(),
    {
        let moral = self.moral.as_str().to_owned();
        let with_space = moral.concat(" ");
        with_space.concat(self.ethical.as_str())
    }
}

} // verus!
