//! The bookmark record, and what a plugin hook answers.
use vstd::prelude::*;

verus! {

/// One bookmark.  `tags` is the stored form `,tag1,tag2,`.
#[derive(Debug)]
pub struct Bookmark {
    pub id: usize,
    pub url: String,
    pub title: String,
    pub tags: String,
    pub description: String,
}

impl Bookmark {
    pub fn new(id: usize, url: String, title: String, tags: String, description: String) -> (b:
        Bookmark)
        ensures
            b.id == id,
            b.url@ == url@,
            b.title@ == title@,
            b.tags@ == tags@,
            b.description@ == description@,
    {
        Bookmark { id, url, title, tags, description }
    }

    /// A field-by-field copy.
    pub fn duplicate(&self) -> (b: Bookmark)
        ensures
            b.id == self.id,
            b.url@ == self.url@,
            b.title@ == self.title@,
            b.tags@ == self.tags@,
            b.description@ == self.description@,
    {
        Bookmark {
            id: self.id,
            url: self.url.clone(),
            title: self.title.clone(),
            tags: self.tags.clone(),
            description: self.description.clone(),
        }
    }
}

/// What a plugin hook answers: go on, or stop with a message.
#[derive(Debug)]
pub enum HookResult {
    Continue,
    Error(String),
}

impl HookResult {
    pub fn is_continue(&self) -> (r: bool)
        ensures
            r == (*self is Continue),
    {
        match self {
            HookResult::Continue => true,
            HookResult::Error(_) => false,
        }
    }

    pub fn is_error(&self) -> (r: bool)
        ensures
            r == (*self is Error),
    {
        match self {
            HookResult::Continue => false,
            HookResult::Error(_) => true,
        }
    }
}

/// What a plugin says of itself.
#[derive(Debug)]
pub struct PluginInfo {
    pub name: String,
    pub version: String,
    pub description: String,
    pub author: String,
}

impl PluginInfo {
    pub fn new(name: &str, version: &str, description: &str, author: &str) -> (i: PluginInfo)
        ensures
            i.name@ == name@,
            i.version@ == version@,
            i.description@ == description@,
            i.author@ == author@,
    {
        PluginInfo {
            name: crate::strutil::owned(name),
            version: crate::strutil::owned(version),
            description: crate::strutil::owned(description),
            author: crate::strutil::owned(author),
        }
    }
}

} // verus!
