//! The typed requests that the operations take.

use vstd::prelude::*;

use crate::text::views;

verus! {

/// The characters of an optional string.
pub open spec fn option_view(o: Option<String>) -> Option<Seq<char>> {
    match o {
        Some(s) => Some(s@),
        None => None,
    }
}

/// The criteria of a search. One that is absent constrains nothing.
#[derive(Debug)]
pub struct PatternSearchRequest {
    /// Text looked for in name and content, whatever its casing.
    pub query: Option<String>,
    /// The category a pattern must have, letter for letter.
    pub category: Option<String>,
    /// The framework a pattern must have, letter for letter.
    pub framework: Option<String>,
    /// A tag a pattern must carry, letter for letter.
    pub tag: Option<String>,
}

/// What a `PatternSearchRequest` holds.
pub struct SearchCriteria {
    pub query: Option<Seq<char>>,
    pub category: Option<Seq<char>>,
    pub framework: Option<Seq<char>>,
    pub tag: Option<Seq<char>>,
}

impl SearchCriteria {
    /// The criteria that constrain nothing.
    pub open spec fn none() -> SearchCriteria {
        SearchCriteria { query: None, category: None, framework: None, tag: None }
    }

    /// These criteria with all but the text query taken out.
    pub open spec fn only_query(self) -> SearchCriteria {
        SearchCriteria { query: self.query, ..SearchCriteria::none() }
    }

    /// These criteria with all but the category taken out.
    pub open spec fn only_category(self) -> SearchCriteria {
        SearchCriteria { category: self.category, ..SearchCriteria::none() }
    }

    /// These criteria with all but the framework taken out.
    pub open spec fn only_framework(self) -> SearchCriteria {
        SearchCriteria { framework: self.framework, ..SearchCriteria::none() }
    }

    /// These criteria with all but the tag taken out.
    pub open spec fn only_tag(self) -> SearchCriteria {
        SearchCriteria { tag: self.tag, ..SearchCriteria::none() }
    }
}

impl View for PatternSearchRequest {
    type V = SearchCriteria;

    open spec fn view(&self) -> SearchCriteria {
        SearchCriteria {
            query: option_view(self.query),
            category: option_view(self.category),
            framework: option_view(self.framework),
            tag: option_view(self.tag),
        }
    }
}

/// The request for one pattern by its exact name.
#[derive(Debug)]
pub struct GetPatternRequest {
    pub pattern_name: String,
}

/// The fields of a pattern that is to be created.
#[derive(Debug)]
pub struct CreatePatternRequest {
    pub pattern_name: String,
    pub category: String,
    pub framework: String,
    /// The projects the pattern was used in; may be left out.
    pub projects: Option<Vec<String>>,
    /// The tags; may be empty.
    pub tag: Vec<String>,
    pub content: String,
}

/// What a `CreatePatternRequest` holds. A project list that was left out
/// and an empty one are the same here: neither is written.
pub struct NewPattern {
    pub name: Seq<char>,
    pub category: Seq<char>,
    pub framework: Seq<char>,
    pub projects: Seq<Seq<char>>,
    pub tags: Seq<Seq<char>>,
    pub content: Seq<char>,
}

impl View for CreatePatternRequest {
    type V = NewPattern;

    open spec fn view(&self) -> NewPattern {
        NewPattern {
            name: self.pattern_name@,
            category: self.category@,
            framework: self.framework@,
            projects: match self.projects {
                Some(p) => views(p@),
                None => Seq::empty(),
            },
            tags: views(self.tag@),
            content: self.content@,
        }
    }
}

} // verus!
