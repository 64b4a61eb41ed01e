//! The repository: the patterns that were loaded when the process started,
//! and the read operations over them. Nothing here changes the collection
//! once it is made.

use vstd::prelude::*;
use vstd::string::StringExecFns;

use crate::document::document_text;
use crate::document::file_name;
use crate::document::file_name_of;
use crate::document::render_document;
use crate::document::PatternFile;
use crate::error::PatternError;
use crate::name::name_verdict;
use crate::name::validate_pattern_name;
use crate::pattern::Pattern;
use crate::pattern::PatternView;
use crate::request::CreatePatternRequest;
use crate::request::option_view;
use crate::request::GetPatternRequest;
use crate::request::PatternSearchRequest;
use crate::request::SearchCriteria;
use crate::text::join;
use crate::text::joined;
use crate::text::lowercase;
use crate::text::same_text;
use crate::text::to_lowercase;
use crate::text::views;

verus! {

/// What each pattern of a vector holds.
pub open spec fn pattern_views(patterns: Seq<Pattern>) -> Seq<PatternView> {
    patterns.map_values(|p: Pattern| p@)
}

/// What is kept of the documents that were tried: the patterns that came
/// out, in the order of the documents.
pub open spec fn loaded(candidates: Seq<Option<Pattern>>) -> Seq<PatternView>
    decreases candidates.len(),
{
    if candidates.len() == 0 {
        Seq::empty()
    } else {
        let before = loaded(candidates.drop_last());
        match candidates.last() {
            Some(p) => before.push(p@),
            None => before,
        }
    }
}

/// The line that stands for a pattern in the listing.
pub open spec fn summary_line(p: PatternView) -> Seq<char> {
    "- "@ + p.metadata.pattern + " ("@ + p.metadata.category + ")"@
}

/// The listing: one line for each pattern, in the order of the collection.
pub open spec fn listing(all: Seq<PatternView>) -> Seq<char> {
    joined(all.map_values(|p: PatternView| summary_line(p)), "\n"@)
}

/// The patterns that meet the criteria, in the order of the collection.
pub open spec fn search_spec(all: Seq<PatternView>, criteria: SearchCriteria) -> Seq<PatternView> {
    all.filter(|p: PatternView| p.matches(criteria))
}

/// What a search shows of a pattern.
pub struct HitView {
    pub name: Seq<char>,
    pub excerpt: Seq<char>,
}

/// What a search shows of `p`: its name and the start of its content.
pub open spec fn hit_of(p: PatternView) -> HitView {
    HitView { name: p.metadata.pattern, excerpt: p.excerpt() }
}

/// The block of text that stands for a hit.
pub open spec fn hit_block(h: HitView) -> Seq<char> {
    "**"@ + h.name + "**\n"@ + h.excerpt
}

/// The text of a search's outcome: the blocks of the hits with an empty
/// line between them, or the sentence that there are none.
pub open spec fn search_text(all: Seq<PatternView>, criteria: SearchCriteria) -> Seq<char> {
    let hits = search_spec(all, criteria);
    if hits.len() == 0 {
        "No patterns found."@
    } else {
        joined(hits.map_values(|p: PatternView| hit_block(hit_of(p))), "\n\n"@)
    }
}

/// The first pattern of that name, if there is one.
pub open spec fn find_named(all: Seq<PatternView>, name: Seq<char>) -> Option<PatternView>
    decreases all.len(),
{
    if all.len() == 0 {
        None
    } else if all.first().metadata.pattern == name {
        Some(all.first())
    } else {
        find_named(all.drop_first(), name)
    }
}

/// The text of a lookup's outcome: the content of the pattern, or the
/// sentence that there is none of that name.
pub open spec fn lookup_text(all: Seq<PatternView>, name: Seq<char>) -> Seq<char> {
    match find_named(all, name) {
        Some(p) => p.content,
        None => "Pattern '"@ + name + "' not found."@,
    }
}

/// The sentence that confirms that a pattern was written.
pub open spec fn created_text(name: Seq<char>, location: Seq<char>) -> Seq<char> {
    "Pattern '"@ + name + "' created at "@ + location
}

/// One result of a search.
#[derive(Debug)]
pub struct SearchHit {
    pub name: String,
    pub excerpt: String,
}

impl View for SearchHit {
    type V = HitView;

    open spec fn view(&self) -> HitView {
        HitView { name: self.name@, excerpt: self.excerpt@ }
    }
}

/// The collection of patterns.
#[derive(Debug)]
pub struct Patterns {
    patterns: Vec<Pattern>,
}

impl View for Patterns {
    type V = Seq<PatternView>;

    closed spec fn view(&self) -> Seq<PatternView> {
        pattern_views(self.patterns@)
    }
}

impl Patterns {
    /// The collection of the given patterns, in their order.
    pub fn new(patterns: Vec<Pattern>) -> (r: Patterns)
        ensures
            r@ == pattern_views(patterns@),
    {
        Patterns { patterns }
    }

    /// The collection that a directory gives: one candidate for each
    /// document that was tried, `None` where no pattern came out of it.
    /// Those are passed over; the others are kept, in order.
    pub fn load(candidates: Vec<Option<Pattern>>) -> (r: Patterns)
        ensures
            r@ == loaded(candidates@),
            r@.len() == candidates@.filter(|c: Option<Pattern>| c is Some).len(),
    {
        let ghost all = candidates@;
        let mut patterns: Vec<Pattern> = Vec::new();
        for c in it: candidates
            invariant
                it.seq() == all,
                pattern_views(patterns@) == loaded(all.take(it.index() as int)),
        {
            proof {
                let i = it.index() as int;
                assert(all.take(i + 1).drop_last() =~= all.take(i));
            }
            match c {
                Some(p) => {
                    patterns.push(p);
                },
                None => {},
            }
        }
        proof {
            assert(all.take(all.len() as int) =~= all);
            lemma_loaded_len(all);
        }
        Patterns { patterns }
    }

    /// How many patterns there are.
    pub fn len(&self) -> (r: usize)
        ensures
            r == self@.len(),
    {
        self.patterns.len()
    }

    /// Whether there is no pattern at all.
    pub fn is_empty(&self) -> (r: bool)
        ensures
            r == (self@.len() == 0),
    {
        self.patterns.len() == 0
    }

    /// The pattern at `index`, in the order of the collection.
    pub fn get(&self, index: usize) -> (r: Option<&Pattern>)
        ensures
            match r {
                Some(p) => index < self@.len() && p@ == self@[index as int],
                None => index >= self@.len(),
            },
    {
        if index < self.patterns.len() {
            Some(&self.patterns[index])
        } else {
            None
        }
    }

    /// One line for each pattern, `- name (category)`, in the order of the
    /// collection, joined by newlines. Empty where there is no pattern.
    pub fn list_patterns(&self) -> (r: String)
        ensures
            r@ == listing(self@),
    {
        let mut lines: Vec<String> = Vec::new();
        let mut i: usize = 0;
        while i < self.patterns.len()
            invariant
                i <= self.patterns@.len(),
                views(lines@) == self@.take(i as int).map_values(|p: PatternView| summary_line(p)),
            decreases self.patterns@.len() - i,
        {
            let p = &self.patterns[i];
            let mut line = String::from_str("- ");
            line.append(p.name());
            line.append(" (");
            line.append(p.category());
            line.append(")");
            proof {
                assert(views(lines@.push(line)) =~= views(lines@).push(line@));
            }
            lines.push(line);
            i += 1;
        }
        proof {
            assert(self@.take(self@.len() as int) =~= self@);
        }
        join(&lines, "\n")
    }

    /// The patterns that meet every criterion that `req` gives, in the
    /// order of the collection, each as its name and the start of its
    /// content.
    pub fn search(&self, req: &PatternSearchRequest) -> (r: Vec<SearchHit>)
        ensures
            r@.map_values(|h: SearchHit| h@) == search_spec(self@, req@).map_values(
                |p: PatternView| hit_of(p),
            ),
    {
        let lowered = match &req.query {
            Some(q) => Some(to_lowercase(q.as_str())),
            None => None,
        };
        let ghost pred = |p: PatternView| p.matches(req@);
        let mut hits: Vec<SearchHit> = Vec::new();
        let mut i: usize = 0;
        while i < self.patterns.len()
            invariant
                i <= self.patterns@.len(),
                pred == |p: PatternView| p.matches(req@),
                hits@.map_values(|h: SearchHit| h@) == self@.take(i as int).filter(pred).map_values(
                    |p: PatternView| hit_of(p),
                ),
                option_view(lowered) == match req@.query {
                    Some(q) => Some(lowercase(q)),
                    None => None,
                },
            decreases self.patterns@.len() - i,
        {
            let p = &self.patterns[i];
            proof {
                assert(self@.take(i as int + 1) =~= self@.take(i as int).push(p@));
                self@.take(i as int).lemma_filter_push(p@, pred);
            }
            if p.matches_lowered(req, &lowered) {
                let hit = SearchHit { name: String::from_str(p.name()), excerpt: p.excerpt() };
                proof {
                    assert(hits@.push(hit).map_values(|h: SearchHit| h@) =~= hits@.map_values(
                        |h: SearchHit| h@,
                    ).push(hit@));
                }
                hits.push(hit);
            }
            i += 1;
        }
        proof {
            assert(self@.take(self@.len() as int) =~= self@);
        }
        hits
    }

    /// The outcome of a search as text: for each hit its name between
    /// double asterisks and, on the next line, the start of its content;
    /// an empty line between two hits. Where nothing matches, the text
    /// says so.
    pub fn search_patterns(&self, req: &PatternSearchRequest) -> (r: String)
        ensures
            r@ == search_text(self@, req@),
    {
        let hits = self.search(req);
        let ghost found = search_spec(self@, req@);
        proof {
            assert(found.len() == found.map_values(|p: PatternView| hit_of(p)).len());
        }
        if hits.len() == 0 {
            return String::from_str("No patterns found.");
        }
        let mut blocks: Vec<String> = Vec::new();
        let mut i: usize = 0;
        while i < hits.len()
            invariant
                i <= hits@.len(),
                hits@.len() == found.len(),
                hits@.map_values(|h: SearchHit| h@) == found.map_values(|p: PatternView| hit_of(p)),
                views(blocks@) == found.take(i as int).map_values(
                    |p: PatternView| hit_block(hit_of(p)),
                ),
            decreases hits@.len() - i,
        {
            let hit = &hits[i];
            let mut block = String::from_str("**");
            block.append(hit.name.as_str());
            block.append("**\n");
            block.append(hit.excerpt.as_str());
            proof {
                assert(found.map_values(|p: PatternView| hit_of(p))[i as int] == hit_of(
                    found[i as int],
                ));
                assert(views(blocks@.push(block)) =~= views(blocks@).push(block@));
            }
            blocks.push(block);
            i += 1;
        }
        proof {
            assert(found.take(found.len() as int) =~= found);
        }
        join(&blocks, "\n\n")
    }

    /// The first pattern, in the order of the collection, whose name is
    /// `name`, letter for letter.
    pub fn find(&self, name: &str) -> (r: Option<&Pattern>)
        ensures
            match r {
                Some(p) => find_named(self@, name@) == Some(p@),
                None => find_named(self@, name@) is None,
            },
    {
        let mut i: usize = 0;
        proof {
            assert(self@.skip(0) =~= self@);
        }
        while i < self.patterns.len()
            invariant
                i <= self.patterns@.len(),
                find_named(self@, name@) == find_named(self@.skip(i as int), name@),
            decreases self.patterns@.len() - i,
        {
            let p = &self.patterns[i];
            if same_text(p.name(), name) {
                return Some(p);
            }
            proof {
                assert(self@.skip(i as int).drop_first() =~= self@.skip(i as int + 1));
            }
            i += 1;
        }
        None
    }

    /// The content of the first pattern of the requested name, or, where
    /// there is none, the sentence that says so. Either is an answer, not
    /// an error.
    pub fn get_pattern(&self, req: &GetPatternRequest) -> (r: String)
        ensures
            r@ == lookup_text(self@, req.pattern_name@),
    {
        match self.find(req.pattern_name.as_str()) {
            Some(p) => String::from_str(p.content()),
            None => {
                let mut out = String::from_str("Pattern '");
                out.append(req.pattern_name.as_str());
                out.append("' not found.");
                out
            },
        }
    }

    /// Decides what is to be written for a new pattern, and writes nothing
    /// itself. The name is validated before anything else; a name that is
    /// rejected gives the rule it broke and no document. Otherwise the
    /// result is the file's name and the text to put in it. The collection
    /// stays as it was loaded: a pattern that is created shows up once the
    /// directory is loaded again.
    pub fn create_pattern(&self, req: &CreatePatternRequest) -> (r: Result<
        PatternFile,
        PatternError,
    >)
        ensures
            match r {
                Ok(f) => name_verdict(req@.name) is Ok && f.file_name@ == file_name_of(req@.name)
                    && f.text@ == document_text(req@),
                Err(e) => name_verdict(req@.name) == Err::<(), PatternError>(e),
            },
    {
        match validate_pattern_name(req.pattern_name.as_str()) {
            Err(e) => Err(e),
            Ok(_) => Ok(
                PatternFile {
                    file_name: file_name(req.pattern_name.as_str()),
                    text: render_document(req),
                },
            ),
        }
    }
}

/// The sentence that confirms that the pattern `name` was written to
/// `location`.
pub fn created_message(name: &str, location: &str) -> (r: String)
    ensures
        r@ == created_text(name@, location@),
{
    let mut out = String::from_str("Pattern '");
    out.append(name);
    out.append("' created at ");
    out.append(location);
    out
}

/// As many patterns are kept as documents gave one: a document that gave
/// none neither adds to the collection nor takes from it.
pub proof fn lemma_loaded_len(candidates: Seq<Option<Pattern>>)
    ensures
        loaded(candidates).len() == candidates.filter(|c: Option<Pattern>| c is Some).len(),
    decreases candidates.len(),
{
    reveal(Seq::filter);
    if candidates.len() > 0 {
        lemma_loaded_len(candidates.drop_last());
    }
}

/// A pattern is among the results of a search exactly if it is in the
/// collection and meets the criteria.
pub proof fn lemma_search_membership(all: Seq<PatternView>, criteria: SearchCriteria, p: PatternView)
    ensures
        search_spec(all, criteria).contains(p) <==> all.contains(p) && p.matches(criteria),
{
    let pred = |p: PatternView| p.matches(criteria);
    let found = all.filter(pred);
    if found.contains(p) {
        let i = choose|i: int| 0 <= i < found.len() && found[i] == p;
        all.lemma_filter_pred(pred, i);
        all.lemma_filter_contains_rev(pred, p);
    }
    if all.contains(p) && p.matches(criteria) {
        let i = choose|i: int| 0 <= i < all.len() && all[i] == p;
        all.lemma_filter_contains(pred, i);
    }
}

/// Criteria work together as a conjunction: what a search under several
/// criteria finds is what the searches under each of them alone all find.
pub proof fn lemma_search_intersects(all: Seq<PatternView>, criteria: SearchCriteria)
    ensures
        search_spec(all, criteria).to_set() == search_spec(all, criteria.only_category()).to_set().intersect(
            search_spec(all, criteria.only_framework()).to_set(),
        ).intersect(search_spec(all, criteria.only_tag()).to_set()).intersect(
            search_spec(all, criteria.only_query()).to_set(),
        ),
{
    let both = search_spec(all, criteria).to_set();
    let each = search_spec(all, criteria.only_category()).to_set().intersect(
        search_spec(all, criteria.only_framework()).to_set(),
    ).intersect(search_spec(all, criteria.only_tag()).to_set()).intersect(
        search_spec(all, criteria.only_query()).to_set(),
    );
    assert forall|p: PatternView| both.contains(p) <==> each.contains(p) by {
        lemma_search_membership(all, criteria, p);
        lemma_search_membership(all, criteria.only_category(), p);
        lemma_search_membership(all, criteria.only_framework(), p);
        lemma_search_membership(all, criteria.only_tag(), p);
        lemma_search_membership(all, criteria.only_query(), p);
    }
}

/// A search without criteria finds the whole collection, in its order.
pub proof fn lemma_search_without_criteria(all: Seq<PatternView>)
    ensures
        search_spec(all, SearchCriteria::none()) == all,
    decreases all.len(),
{
    reveal(Seq::filter);
    if all.len() > 0 {
        lemma_search_without_criteria(all.drop_last());
    }
}

/// Where one of the criteria alone finds nothing, the search finds nothing,
/// and its text says so.
pub proof fn lemma_search_finds_nothing(all: Seq<PatternView>, criteria: SearchCriteria)
    requires
        search_spec(all, criteria.only_category()).len() == 0 || search_spec(
            all,
            criteria.only_framework(),
        ).len() == 0 || search_spec(all, criteria.only_tag()).len() == 0 || search_spec(
            all,
            criteria.only_query(),
        ).len() == 0,
    ensures
        search_spec(all, criteria).len() == 0,
        search_text(all, criteria) == "No patterns found."@,
{
    let found = search_spec(all, criteria);
    if found.len() > 0 {
        let p = found[0];
        lemma_search_membership(all, criteria, p);
        lemma_search_membership(all, criteria.only_category(), p);
        lemma_search_membership(all, criteria.only_framework(), p);
        lemma_search_membership(all, criteria.only_tag(), p);
        lemma_search_membership(all, criteria.only_query(), p);
    }
}

/// The casing of a query does not matter: two queries with the same
/// lowercase form find the same patterns, other criteria being equal.
pub proof fn lemma_query_ignores_case(
    all: Seq<PatternView>,
    criteria: SearchCriteria,
    query: Seq<char>,
    other: Seq<char>,
)
    requires
        lowercase(query) == lowercase(other),
    ensures
        search_spec(all, SearchCriteria { query: Some(query), ..criteria }) == search_spec(
            all,
            SearchCriteria { query: Some(other), ..criteria },
        ),
{
    let c = SearchCriteria { query: Some(query), ..criteria };
    let d = SearchCriteria { query: Some(other), ..criteria };
    let f = |p: PatternView| p.matches(c);
    let g = |p: PatternView| p.matches(d);
    assert(f =~= g);
}

/// Category, framework and tag are compared letter for letter: whatever a
/// search finds has the very category and the very framework that were
/// asked for, and carries the very tag; a pattern that differs from one of
/// them in any letter, in casing or in length is not found.
pub proof fn lemma_fields_match_exactly(all: Seq<PatternView>, criteria: SearchCriteria, p: PatternView)
    ensures
        search_spec(all, criteria).contains(p) ==> {
            &&& criteria.category matches Some(c) ==> p.metadata.category == c
            &&& criteria.framework matches Some(f) ==> p.metadata.framework == Some(f)
            &&& criteria.tag matches Some(t) ==> exists|k: int|
                0 <= k < p.metadata.tags.len() && p.metadata.tags[k] == t
        },
        criteria.category matches Some(c) && p.metadata.category != c ==> !search_spec(
            all,
            criteria,
        ).contains(p),
        criteria.framework matches Some(f) && p.metadata.framework != Some(f) ==> !search_spec(
            all,
            criteria,
        ).contains(p),
        criteria.tag matches Some(t) && (forall|k: int|
            0 <= k < p.metadata.tags.len() ==> p.metadata.tags[k] != t) ==> !search_spec(
            all,
            criteria,
        ).contains(p),
{
    lemma_search_membership(all, criteria, p);
}

} // verus!
