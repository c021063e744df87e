//! The leagues the API knows of, and finding one by name.

use vstd::prelude::*;

verus! {

/// A whole `getLeagues` answer.
#[derive(Debug, Clone)]
pub struct RawLeagueData {
    pub data: LeagueDataArray,
}

#[derive(Debug, Clone)]
pub struct LeagueDataArray {
    pub leagues: Vec<LeagueData>,
}

#[derive(Debug, Clone, Default)]
pub struct LeagueData {
    /// The id that `getSchedule` takes.
    pub id: String,
    pub slug: String,
    pub name: String,
    pub region: String,
    pub image: String,
    pub priority: i32,
    pub display_priority: DisplayPriority,
}

#[derive(Debug, Clone, Default)]
pub struct DisplayPriority {
    pub position: i32,
    pub status: String,
}

/// What `str::to_lowercase` makes of a text.
pub uninterp spec fn lower_of(s: Seq<char>) -> Seq<char>;

/// Relies on `str::to_lowercase`: the result depends on the characters alone.
#[verifier::external_body]
fn lowercase(s: &str) -> (r: String)
    ensures
        r@ == lower_of(s@),
{
    s.to_lowercase()
}

/// Two names are the same league name when they agree once lowercased.
pub open spec fn same_name(a: Seq<char>, b: Seq<char>) -> bool {
    lower_of(a) == lower_of(b)
}

/// The position of the first of `names` that equals `needle`.
pub fn position_of(names: &Vec<String>, needle: &String) -> (r: Option<usize>)
    ensures
        match r {
            Some(i) => i < names@.len() && names@[i as int]@ == needle@
                && forall|j: int| 0 <= j < i ==> (#[trigger] names@[j])@ != needle@,
            None => forall|j: int| 0 <= j < names@.len() ==> (#[trigger] names@[j])@ != needle@,
        },
{
    let mut i: usize = 0;
    while i < names.len()
        invariant
            i <= names@.len(),
            forall|j: int| 0 <= j < i ==> (#[trigger] names@[j])@ != needle@,
        decreases names@.len() - i,
    {
        if names[i] == *needle {
            return Some(i);
        }
        i = i + 1;
    }
    None
}

/// The position of the first league whose name is `name`, ignoring case.
pub fn find_league_by_name(leagues: &Vec<LeagueData>, name: &str) -> (r: Option<usize>)
    ensures
        match r {
            Some(i) => i < leagues@.len() && same_name(leagues@[i as int].name@, name@)
                && forall|j: int| 0 <= j < i ==> !same_name(#[trigger] leagues@[j].name@, name@),
            None => forall|j: int| 0 <= j < leagues@.len() ==> !same_name(#[trigger] leagues@[j].name@, name@),
        },
{
    let needle = lowercase(name);
    let mut lowered: Vec<String> = Vec::new();
    let mut i: usize = 0;
    while i < leagues.len()
        invariant
            i <= leagues@.len(),
            lowered@.len() == i,
            forall|j: int| 0 <= j < i ==> (#[trigger] lowered@[j])@ == lower_of(leagues@[j].name@),
        decreases leagues@.len() - i,
    {
        lowered.push(lowercase(leagues[i].name.as_str()));
        i = i + 1;
    }
    let r = position_of(&lowered, &needle);
    assert forall|j: int| 0 <= j < leagues@.len() implies
        same_name(#[trigger] leagues@[j].name@, name@) == (lowered@[j]@ == needle@) by {}
    r
}

} // verus!
