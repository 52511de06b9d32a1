//! The entities that extraction reports.
use vstd::prelude::*;

verus! {

/// The kinds of entity.
#[derive(PartialEq, Eq, Structural, Clone, Copy, Debug)]
#[allow(non_camel_case_types, clippy::upper_case_acronyms)]
pub enum Type {
    URL,
    HASHTAG,
    MENTION,
    CASHTAG,
    FEDERATEDMENTION,
}

/// An entity of a text: its kind, its span in UTF-16 code units, its value
/// (without the sign that starts a hashtag, cashtag or mention), and for a
/// list, its slug (starting with `/`).
#[derive(Clone, Debug)]
pub struct Entity {
    pub t: Type,
    pub start: i32,
    pub end: i32,
    pub value: String,
    pub list_slug: String,
}

/// What an entity holds, as mathematical values.
pub struct EntityModel {
    pub t: Type,
    pub start: int,
    pub end: int,
    pub value: Seq<char>,
    pub list_slug: Seq<char>,
}

impl View for Entity {
    type V = EntityModel;

    open spec fn view(&self) -> EntityModel {
        EntityModel {
            t: self.t,
            start: self.start as int,
            end: self.end as int,
            value: self.value@,
            list_slug: self.list_slug@,
        }
    }
}

/// The views of a sequence of entities.
pub open spec fn entity_views(v: Seq<Entity>) -> Seq<EntityModel> {
    v.map_values(|e: Entity| e@)
}

/// The views of a sequence of strings.
pub open spec fn string_views(v: Seq<String>) -> Seq<Seq<char>> {
    v.map_values(|x: String| x@)
}

impl Entity {
    /// An entity with no list slug.
    pub fn new(t: Type, value: String, start: i32, end: i32) -> (e: Entity)
        ensures
            e@ == (EntityModel {
                t,
                start: start as int,
                end: end as int,
                value: value@,
                list_slug: Seq::<char>::empty(),
            }),
    {
        Entity { t, start, end, value, list_slug: String::new() }
    }

    /// A list mention: the user's name and the list's slug.
    pub fn new_list(t: Type, value: String, list_slug: String, start: i32, end: i32) -> (e: Entity)
        ensures
            e@ == (EntityModel {
                t,
                start: start as int,
                end: end as int,
                value: value@,
                list_slug: list_slug@,
            }),
    {
        Entity { t, start, end, value, list_slug }
    }

    /// The entity's value.
    pub fn get_value(&self) -> (r: &str)
        ensures
            r@ == self.value@,
    {
        self.value.as_str()
    }
}

} // verus!
