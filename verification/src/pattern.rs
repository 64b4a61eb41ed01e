//! One pattern: its metadata, its content and where it came from.

use vstd::prelude::*;
use vstd::string::StrSliceExecFns;
use vstd::string::StringExecFns;

use crate::request::option_view;
use crate::request::PatternSearchRequest;
use crate::request::SearchCriteria;
use crate::text::contains_string;
use crate::text::contains_text;
use crate::text::is_whitespace;
use crate::text::lemma_trimmed_is_bare;
use crate::text::lowercase;
use crate::text::occurs;
use crate::text::to_lowercase;
use crate::text::trim;
use crate::text::trimmed;
use crate::text::views;

verus! {

/// How many characters of its content a search result shows.
pub const EXCERPT_LEN: usize = 200;

/// The header of a pattern document.
#[derive(Debug)]
pub struct PatternMetadata {
    /// The name by which the pattern is looked up.
    pub pattern: String,
    pub category: String,
    pub framework: Option<String>,
    pub projects: Vec<String>,
    pub tags: Vec<String>,
}

/// What a `PatternMetadata` holds.
pub struct MetadataView {
    pub pattern: Seq<char>,
    pub category: Seq<char>,
    pub framework: Option<Seq<char>>,
    pub projects: Seq<Seq<char>>,
    pub tags: Seq<Seq<char>>,
}

impl View for PatternMetadata {
    type V = MetadataView;

    open spec fn view(&self) -> MetadataView {
        MetadataView {
            pattern: self.pattern@,
            category: self.category@,
            framework: option_view(self.framework),
            projects: views(self.projects@),
            tags: views(self.tags@),
        }
    }
}

/// What a `Pattern` holds.
pub struct PatternView {
    pub metadata: MetadataView,
    pub content: Seq<char>,
    pub filepath: Seq<char>,
}

impl PatternView {
    /// What holds of every pattern: it has a name and a category, and its
    /// content neither begins nor ends with whitespace.
    pub open spec fn well_formed(self) -> bool {
        &&& self.metadata.pattern.len() > 0
        &&& self.metadata.category.len() > 0
        &&& self.content.len() > 0 ==> !is_whitespace(self.content.first()) && !is_whitespace(
            self.content.last(),
        )
    }

    /// The category criterion: the same category, letter for letter.
    pub open spec fn in_category(self, category: Option<Seq<char>>) -> bool {
        category matches Some(c) ==> self.metadata.category == c
    }

    /// The framework criterion: a framework is given, and it is the same,
    /// letter for letter.
    pub open spec fn uses_framework(self, framework: Option<Seq<char>>) -> bool {
        framework matches Some(f) ==> self.metadata.framework == Some(f)
    }

    /// The tag criterion: one of the tags is the same, letter for letter.
    pub open spec fn tagged(self, tag: Option<Seq<char>>) -> bool {
        tag matches Some(t) ==> self.metadata.tags.contains(t)
    }

    /// The text that a query is looked for in: the name and the content,
    /// one after the other, in lowercase.
    pub open spec fn searchable(self) -> Seq<char> {
        lowercase(self.metadata.pattern + self.content)
    }

    /// The text criterion: the query in lowercase stands in `searchable`.
    pub open spec fn mentions(self, query: Option<Seq<char>>) -> bool {
        query matches Some(q) ==> occurs(self.searchable(), lowercase(q))
    }

    /// Every criterion that is given is met.
    pub open spec fn matches(self, criteria: SearchCriteria) -> bool {
        &&& self.in_category(criteria.category)
        &&& self.uses_framework(criteria.framework)
        &&& self.tagged(criteria.tag)
        &&& self.mentions(criteria.query)
    }

    /// The first `EXCERPT_LEN` characters of the content, or all of it
    /// where it has no more.
    pub open spec fn excerpt(self) -> Seq<char> {
        if self.content.len() <= EXCERPT_LEN {
            self.content
        } else {
            self.content.take(EXCERPT_LEN as int)
        }
    }
}

/// An excerpt is never cut short without need and never longer than
/// `EXCERPT_LEN` characters: content of up to `EXCERPT_LEN` characters is
/// shown whole, and of longer content exactly the first `EXCERPT_LEN`
/// characters are shown.
pub proof fn lemma_excerpt_bounds(p: PatternView)
    ensures
        p.content.len() <= EXCERPT_LEN ==> p.excerpt() == p.content,
        p.content.len() > EXCERPT_LEN ==> p.excerpt().len() == EXCERPT_LEN && p.excerpt()
            == p.content.subrange(0, EXCERPT_LEN as int),
{
}

/// A pattern as it is held in memory. It is made once, from a document that
/// was read, and never changed.
#[derive(Debug)]
pub struct Pattern {
    metadata: PatternMetadata,
    content: String,
    filepath: String,
}

impl View for Pattern {
    type V = PatternView;

    closed spec fn view(&self) -> PatternView {
        PatternView {
            metadata: self.metadata@,
            content: self.content@,
            filepath: self.filepath@,
        }
    }
}

impl Pattern {
    #[verifier::type_invariant]
    spec fn inv(self) -> bool {
        self@.well_formed()
    }

    /// What `new` makes of its arguments.
    pub open spec fn new_spec(
        metadata: MetadataView,
        body: Seq<char>,
        filepath: Seq<char>,
    ) -> Option<PatternView> {
        if metadata.pattern.len() > 0 && metadata.category.len() > 0 {
            Some(PatternView { metadata, content: trimmed(body), filepath })
        } else {
            None
        }
    }

    /// A pattern of the given header and body. The body is trimmed. There
    /// is no pattern without a name or without a category.
    pub fn new(metadata: PatternMetadata, body: &str, filepath: String) -> (r: Option<Pattern>)
        ensures
            r is Some <==> metadata@.pattern.len() > 0 && metadata@.category.len() > 0,
            match r {
                Some(p) => Some(p@) == Pattern::new_spec(metadata@, body@, filepath@)
                    && p@.well_formed(),
                None => Pattern::new_spec(metadata@, body@, filepath@) is None,
            },
    {
        if metadata.pattern.as_str().is_empty() || metadata.category.as_str().is_empty() {
            return None;
        }
        let content = trim(body);
        proof {
            lemma_trimmed_is_bare(body@);
        }
        Some(Pattern { metadata, content, filepath })
    }

    /// The header. Every pattern that exists is well formed.
    pub fn metadata(&self) -> (r: &PatternMetadata)
        ensures
            r@ == self@.metadata,
            self@.well_formed(),
    {
        proof {
            use_type_invariant(self);
        }
        &self.metadata
    }

    /// The name, which is never empty.
    pub fn name(&self) -> (r: &str)
        ensures
            r@ == self@.metadata.pattern,
            r@.len() > 0,
    {
        proof {
            use_type_invariant(self);
        }
        self.metadata.pattern.as_str()
    }

    /// The category, which is never empty.
    pub fn category(&self) -> (r: &str)
        ensures
            r@ == self@.metadata.category,
            r@.len() > 0,
    {
        proof {
            use_type_invariant(self);
        }
        self.metadata.category.as_str()
    }

    /// The content, with no whitespace around it.
    pub fn content(&self) -> (r: &str)
        ensures
            r@ == self@.content,
            self@.well_formed(),
    {
        proof {
            use_type_invariant(self);
        }
        self.content.as_str()
    }

    /// Where the document was read from. Kept for diagnostics; no query
    /// looks at it.
    pub fn filepath(&self) -> (r: &str)
        ensures
            r@ == self@.filepath,
    {
        self.filepath.as_str()
    }

    /// The part of the content that a search result shows. Characters are
    /// counted, not bytes, so no character is cut in two.
    pub fn excerpt(&self) -> (r: String)
        ensures
            r@ == self@.excerpt(),
    {
        let n = self.content.as_str().unicode_len();
        if n <= EXCERPT_LEN {
            self.content.clone()
        } else {
            String::from_str(self.content.as_str().substring_char(0, EXCERPT_LEN))
        }
    }

    /// Whether the pattern meets the criteria, the query being handed over
    /// in lowercase already.
    pub(crate) fn matches_lowered(&self, req: &PatternSearchRequest, lowered: &Option<String>) -> (r:
        bool)
        requires
            option_view(*lowered) == match req@.query {
                Some(q) => Some(lowercase(q)),
                None => None,
            },
        ensures
            r == self@.matches(req@),
    {
        let category_ok = match &req.category {
            Some(c) => self.metadata.category == *c,
            None => true,
        };
        if !category_ok {
            return false;
        }
        let framework_ok = match &req.framework {
            Some(f) => match &self.metadata.framework {
                Some(g) => *g == *f,
                None => false,
            },
            None => true,
        };
        if !framework_ok {
            return false;
        }
        let tag_ok = match &req.tag {
            Some(t) => contains_string(&self.metadata.tags, t),
            None => true,
        };
        if !tag_ok {
            return false;
        }
        match lowered {
            Some(q) => {
                let mut text = String::from_str(self.metadata.pattern.as_str());
                text.append(self.content.as_str());
                let searchable = to_lowercase(text.as_str());
                contains_text(searchable.as_str(), q.as_str())
            },
            None => true,
        }
    }

    /// Whether the pattern meets every criterion that `req` gives.
    pub fn matches(&self, req: &PatternSearchRequest) -> (r: bool)
        ensures
            r == self@.matches(req@),
    {
        let lowered = match &req.query {
            Some(q) => Some(to_lowercase(q.as_str())),
            None => None,
        };
        self.matches_lowered(req, &lowered)
    }
}

} // verus!
