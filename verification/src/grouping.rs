//! Grouping rules: under which directory a post is stored.

use crate::api::{Post, ResultItem};
use crate::errors::ParseError;
use crate::text::{decimal, decimal_string, starts_with, str_eq};
use vstd::prelude::*;
use vstd::string::*;

verus! {

/// One way of sorting posts into directories.
#[derive(Debug)]
pub enum PostGrouping {
    Pool,
    Rating,
    Artist,
    FileType,
    Tag(String),
}

/// A grouping rule as plain data.
pub enum GroupingRule {
    Pool,
    Rating,
    Artist,
    FileType,
    Tag(Seq<char>),
}

impl View for PostGrouping {
    type V = GroupingRule;

    open spec fn view(&self) -> GroupingRule {
        match self {
            PostGrouping::Pool => GroupingRule::Pool,
            PostGrouping::Rating => GroupingRule::Rating,
            PostGrouping::Artist => GroupingRule::Artist,
            PostGrouping::FileType => GroupingRule::FileType,
            PostGrouping::Tag(tag) => GroupingRule::Tag(tag@),
        }
    }
}

impl GroupingRule {
    /// Whether the rule has a directory for `item`.
    pub open spec fn matches(self, item: ResultItem) -> bool {
        match self {
            GroupingRule::Pool => item.pools.len() > 0,
            GroupingRule::Rating => true,
            GroupingRule::FileType => true,
            GroupingRule::Artist => item.tags.artist.len() > 0,
            GroupingRule::Tag(tag) => item.tags.contains(tag),
        }
    }

    /// Whether the rule can name a directory for `item`: a rule by pool
    /// needs a pool, a rule by artist an artist. Every rule can for an item
    /// that it matches.
    pub open spec fn has_label(self, item: ResultItem) -> bool {
        &&& self is Pool ==> item.pools.len() > 0
        &&& self is Artist ==> item.tags.artist.len() > 0
    }

    /// The directory the rule has for an item. Of several pools or artists
    /// only the first counts. The label of a rule by tag is the tag,
    /// whatever the item's own tags are.
    pub open spec fn label(self, item: ResultItem) -> Seq<char>
        recommends
            self.has_label(item),
    {
        match self {
            GroupingRule::Pool => "collection_"@ + decimal(item.pools[0] as nat),
            GroupingRule::Rating => item.rating.name(),
            GroupingRule::FileType => item.ext,
            GroupingRule::Artist => item.tags.artist[0],
            GroupingRule::Tag(tag) => tag,
        }
    }
}

/// The rules of a list as plain data, in the list's order.
pub open spec fn rules_view(rules: Seq<PostGrouping>) -> Seq<GroupingRule> {
    rules.map_values(|r: PostGrouping| r@)
}

/// The directory of an item under a list of rules: the label of the first
/// rule that matches, or none where no rule does.
pub open spec fn classify_spec(rules: Seq<GroupingRule>, item: ResultItem) -> Option<Seq<char>>
    decreases rules.len(),
{
    if rules.len() == 0 {
        None
    } else if rules[0].matches(item) {
        Some(rules[0].label(item))
    } else {
        classify_spec(rules.drop_first(), item)
    }
}

/// What a rule is written as: `pool`, `rating`, `artist`, `filetype`, or
/// `tag:` and a tag. The tag is all that follows `tag:`, colons included.
pub open spec fn parse_grouping(s: Seq<char>) -> Option<GroupingRule> {
    if "tag:"@.is_prefix_of(s) {
        Some(GroupingRule::Tag(s.skip(4)))
    } else if s == "pool"@ {
        Some(GroupingRule::Pool)
    } else if s == "rating"@ {
        Some(GroupingRule::Rating)
    } else if s == "artist"@ {
        Some(GroupingRule::Artist)
    } else if s == "filetype"@ {
        Some(GroupingRule::FileType)
    } else {
        None
    }
}

/// What is said of a string that writes no rule.
pub open spec fn invalid_grouping_message(s: Seq<char>) -> Seq<char> {
    "invalid post grouping `"@ + s + "`"@
}

impl PostGrouping {
    /// Whether the rule has a directory for `post`.
    pub fn matches_post(&self, post: &Post) -> (m: bool)
        ensures
            m == self@.matches(post@),
    {
        match self {
            PostGrouping::Pool => post.pools.len() > 0,
            PostGrouping::Rating => true,
            PostGrouping::FileType => true,
            PostGrouping::Artist => post.tags.artist.len() > 0,
            PostGrouping::Tag(tag) => post.tags.contains(tag),
        }
    }

    /// The directory the rule has for `post`. A rule by pool needs a post
    /// that is in a pool, a rule by artist a post that has an artist; the
    /// other rules have a directory for every post.
    pub fn post_group(&self, post: &Post) -> (label: String)
        requires
            self@.has_label(post@),
        ensures
            label@ == self@.label(post@),
    {
        match self {
            PostGrouping::Pool => {
                let mut label = "collection_".to_owned();
                let id = decimal_string(post.pools[0] as u64);
                label.append(id.as_str());
                label
            },
            PostGrouping::Rating => post.rating.to_string(),
            PostGrouping::FileType => post.file.ext.clone(),
            PostGrouping::Artist => post.tags.artist[0].clone(),
            PostGrouping::Tag(tag) => tag.clone(),
        }
    }

    /// Reads a rule as it is written on the command line.
    pub fn from_str(s: &str) -> (r: Result<PostGrouping, ParseError>)
        ensures
            match r {
                Ok(rule) => parse_grouping(s@) == Some(rule@),
                Err(e) => parse_grouping(s@) is None && e@ == invalid_grouping_message(s@),
            },
    {
        if starts_with(s, "tag:") {
            proof {
                reveal_strlit("tag:");
            }
            let tag = s.substring_char(4, s.unicode_len()).to_owned();
            assert(tag@ =~= s@.skip(4));
            return Ok(PostGrouping::Tag(tag));
        }
        if str_eq(s, "pool") {
            Ok(PostGrouping::Pool)
        } else if str_eq(s, "rating") {
            Ok(PostGrouping::Rating)
        } else if str_eq(s, "artist") {
            Ok(PostGrouping::Artist)
        } else if str_eq(s, "filetype") {
            Ok(PostGrouping::FileType)
        } else {
            let mut msg = "invalid post grouping `".to_owned();
            msg.append(s);
            msg.append("`");
            Err(ParseError::new(msg.as_str()))
        }
    }
}

/// The directory, below the output directory, in which `post` is stored: the
/// label of the first rule that matches it. A post that no rule matches is
/// stored in the output directory itself.
pub fn classify(rules: &Vec<PostGrouping>, post: &Post) -> (dir: Option<String>)
    ensures
        crate::api::optional_view(dir) == classify_spec(rules_view(rules@), post@),
{
    let ghost all = rules_view(rules@);
    let mut i: usize = 0;
    assert(all.skip(0) =~= all);
    while i < rules.len()
        invariant
            i <= rules.len(),
            all == rules_view(rules@),
            classify_spec(all, post@) == classify_spec(all.skip(i as int), post@),
        decreases rules.len() - i,
    {
        assert(all.skip(i as int)[0] == rules[i as int]@);
        if rules[i].matches_post(post) {
            return Some(rules[i].post_group(post));
        }
        assert(all.skip(i as int).drop_first() =~= all.skip(i + 1));
        i = i + 1;
    }
    assert(all.skip(i as int).len() == 0);
    None
}

/// The directory of an item is the label of a rule that matches it and that
/// no matching rule precedes; it has none only where no rule matches.
pub proof fn lemma_classify_first_match(rules: Seq<GroupingRule>, item: ResultItem)
    ensures
        match classify_spec(rules, item) {
            Some(label) => exists|i: int|
                0 <= i < rules.len() && #[trigger] rules[i].matches(item) && label
                    == rules[i].label(item) && forall|j: int|
                    0 <= j < i ==> !#[trigger] rules[j].matches(item),
            None => forall|i: int| 0 <= i < rules.len() ==> !#[trigger] rules[i].matches(item),
        },
    decreases rules.len(),
{
    if rules.len() > 0 && !rules[0].matches(item) {
        let rest = rules.drop_first();
        lemma_classify_first_match(rest, item);
        match classify_spec(rest, item) {
            Some(label) => {
                let i = choose|i: int|
                    0 <= i < rest.len() && #[trigger] rest[i].matches(item) && label
                        == rest[i].label(item) && forall|j: int|
                        0 <= j < i ==> !#[trigger] rest[j].matches(item);
                assert(rules[i + 1] == rest[i]);
                assert forall|j: int| 0 <= j < i + 1 implies !#[trigger] rules[j].matches(item) by {
                    if j > 0 {
                        assert(rules[j] == rest[j - 1]);
                    }
                }
            },
            None => {
                assert forall|i: int| 0 <= i < rules.len() implies !#[trigger] rules[i].matches(
                    item,
                ) by {
                    if i > 0 {
                        assert(rules[i] == rest[i - 1]);
                    }
                }
            },
        }
    } else if rules.len() > 0 {
        assert(rules[0].matches(item));
    }
}

} // verus!
