use vstd::prelude::*;
use super::priority::Priority;
use super::status::Status;

verus! {

/// A task.
#[derive(Clone, Debug, PartialEq, Eq)]
pub struct Item {
    pub title: String,
    pub description: String,
    pub priority: Priority,
    pub status: Status,
    pub tags: Vec<String>,
}

/// A task as its plain contents.
pub struct ItemView {
    pub title: Seq<char>,
    pub description: Seq<char>,
    pub priority: Priority,
    pub status: Status,
    pub tags: Seq<Seq<char>>,
}

/// The contents of a list of strings.
pub open spec fn strings_view(v: Seq<String>) -> Seq<Seq<char>> {
    v.map_values(|s: String| s@)
}

/// The contents of a list of tasks.
pub open spec fn items_view(v: Seq<Item>) -> Seq<ItemView> {
    v.map_values(|it: Item| it@)
}

impl View for Item {
    type V = ItemView;

    open spec fn view(&self) -> ItemView {
        ItemView {
            title: self.title@,
            description: self.description@,
            priority: self.priority,
            status: self.status,
            tags: strings_view(self.tags@),
        }
    }
}

impl Item {
    /// A new `Todo` task of `Medium` priority with no description.
    pub fn new(title: String, tags: Vec<String>) -> (r: Self)
        ensures
            r.title == title,
            r.description@ == Seq::<char>::empty(),
            r.priority == Priority::Medium,
            r.status == Status::Todo,
            r.tags == tags,
    {
        Self { title, description: String::new(), priority: Priority::Medium, status: Status::Todo, tags }
    }

    /// The same task with its description replaced.
    pub fn with_description(self, description: String) -> (r: Self)
        ensures
            r.title == self.title,
            r.description == description,
            r.priority == self.priority,
            r.status == self.status,
            r.tags == self.tags,
    {
        let mut me = self;
        me.description = description;
        me
    }
}

} // verus!
