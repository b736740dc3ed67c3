//! Feeds added by the user.

use vstd::prelude::*;
use vstd::string::*;
use crate::config::{is_joined, is_verbatim, join_path, Paths};
use vstd::hash_map::StringHashMap;
use crate::indicators::{is_url, looks_like_url};
use crate::text::{replace_all, replace_spec, split_char, split_on, views};

verus! {

/// A feed added by the user.
#[derive(Debug)]
pub struct CustomFeed {
    pub name: String,
    pub url: String,
    pub added_date: i64,
    pub description: Option<String>,
}

/// All feeds added by the user.
#[derive(Debug)]
pub struct CustomFeeds {
    pub feeds: Vec<CustomFeed>,
}

/// Why a feed could not be added or removed.
#[derive(Debug)]
pub enum FeedError {
    InvalidUrl,
    DuplicateUrl,
    NotFound { name_or_url: String },
}

pub struct CustomFeedManager;

/// The name a feed gets when none is given: its address without the scheme, up to the first
/// `/` (every `https://`, then every `http://`, is removed first).
pub open spec fn default_feed_name(url: Seq<char>) -> Seq<char> {
    split_char(replace_spec(replace_spec(url, "https://"@, ""@), "http://"@, ""@), '/')[0]
}

/// Whether some feed has address `url`.
pub open spec fn has_url(feeds: Seq<CustomFeed>, url: Seq<char>) -> bool {
    exists|i: int| 0 <= i < feeds.len() && (#[trigger] feeds[i]).url@ == url
}

/// Whether feed `f` is designated by `x` (its name or its address).
pub open spec fn designates(f: CustomFeed, x: Seq<char>) -> bool {
    f.name@ == x || f.url@ == x
}

/// The feeds that `x` does not designate, in order.
pub open spec fn feeds_without(feeds: Seq<CustomFeed>, x: Seq<char>) -> Seq<CustomFeed>
    decreases feeds.len(),
{
    if feeds.len() == 0 {
        seq![]
    } else {
        let p = feeds_without(feeds.drop_last(), x);
        if designates(feeds.last(), x) {
            p
        } else {
            p.push(feeds.last())
        }
    }
}

/// Feed names to addresses; a later feed with the same name wins.
pub open spec fn feed_map(feeds: Seq<CustomFeed>) -> Map<Seq<char>, String>
    decreases feeds.len(),
{
    if feeds.len() == 0 {
        Map::empty()
    } else {
        feed_map(feeds.drop_last()).insert(feeds.last().name@, feeds.last().url)
    }
}

fn copy_feed(f: &CustomFeed) -> (r: CustomFeed)
    ensures
        r == *f,
{
    let description = match &f.description {
        Some(d) => Some(d.clone()),
        None => None,
    };
    CustomFeed { name: f.name.clone(), url: f.url.clone(), added_date: f.added_date, description }
}

/// The name a feed gets when none is given.
pub fn default_name(url: &str) -> (r: String)
    ensures
        r@ == default_feed_name(url@),
{
    proof {
        reveal_strlit("https://");
        reveal_strlit("http://");
    }
    let a = replace_all(url, "https://", "");
    let b = replace_all(a.as_str(), "http://", "");
    let parts = split_on(b.as_str(), '/');
    proof {
        crate::text::lemma_split_char_nonempty(b@, '/');
        assert(views(parts@)[0] == parts@[0]@);
    }
    parts[0].to_owned()
}

impl CustomFeedManager {
    /// Where the custom feeds are kept: `custom_feeds.json` in the base directory.
    pub fn get_feeds_path(paths: &Paths) -> (r: String)
        ensures
            !is_verbatim(paths.base_dir@) ==> is_joined(r@, paths.base_dir@, "custom_feeds.json"@),
    {
        proof {
            reveal_strlit("custom_feeds.json");
        }
        join_path(paths.base_dir.as_str(), "custom_feeds.json")
    }
    /// Adds a feed. The address must start with `http://` or `https://` and must not be
    /// present already; without a name, the feed is named after its address.
    pub fn add_feed(
        feeds: &mut CustomFeeds,
        url: &str,
        name: Option<&str>,
        description: Option<String>,
        timestamp: i64,
    ) -> (r: Result<(), FeedError>)
        ensures
            !is_url(url@) ==> (r matches Err(FeedError::InvalidUrl) && final(feeds).feeds@ == old(
                feeds,
            ).feeds@),
            is_url(url@) && has_url(old(feeds).feeds@, url@) ==> (r matches Err(
                FeedError::DuplicateUrl,
            ) && final(feeds).feeds@ == old(feeds).feeds@),
            is_url(url@) && !has_url(old(feeds).feeds@, url@) ==> (r is Ok && final(feeds).feeds@
                == old(feeds).feeds@.push(
                CustomFeed {
                    name: final(feeds).feeds@.last().name,
                    url: final(feeds).feeds@.last().url,
                    added_date: timestamp,
                    description,
                },
            ) && final(feeds).feeds@.last().url@ == url@ && final(feeds).feeds@.last().name@ == (
            match name {
                Some(n) => n@,
                None => default_feed_name(url@),
            })),
    {
        if !looks_like_url(url) {
            return Err(FeedError::InvalidUrl);
        }
        let mut k: usize = 0;
        while k < feeds.feeds.len()
            invariant
                k <= feeds.feeds@.len(),
                is_url(url@),
                feeds.feeds@ == old(feeds).feeds@,
                forall|j: int| 0 <= j < k ==> (#[trigger] feeds.feeds@[j]).url@ != url@,
            decreases feeds.feeds@.len() - k,
        {
            if crate::text::str_eq(feeds.feeds[k].url.as_str(), url) {
                return Err(FeedError::DuplicateUrl);
            }
            k += 1;
        }
        let feed_name = match name {
            Some(n) => n.to_owned(),
            None => default_name(url),
        };
        feeds.feeds.push(
            CustomFeed { name: feed_name, url: url.to_owned(), added_date: timestamp, description },
        );
        Ok(())
    }

    /// Removes every feed whose name or address is `name_or_url`; it is an error when none is.
    pub fn remove_feed(feeds: &mut CustomFeeds, name_or_url: &str) -> (r: Result<(), FeedError>)
        ensures
            final(feeds).feeds@ == feeds_without(old(feeds).feeds@, name_or_url@),
            r is Ok <==> final(feeds).feeds@.len() != old(feeds).feeds@.len(),
            r matches Err(e) ==> (e matches FeedError::NotFound { name_or_url: x } && x@
                == name_or_url@),
    {
        let ghost old_feeds = feeds.feeds@;
        let mut kept: Vec<CustomFeed> = Vec::new();
        let mut i: usize = 0;
        while i < feeds.feeds.len()
            invariant
                i <= old_feeds.len(),
                feeds.feeds@ == old_feeds,
                kept@ == feeds_without(old_feeds.take(i as int), name_or_url@),
                kept@.len() <= i,
            decreases old_feeds.len() - i,
        {
            proof {
                let t = old_feeds.take(i + 1);
                assert(t.drop_last() =~= old_feeds.take(i as int));
                assert(t.last() == old_feeds[i as int]);
            }
            let f = &feeds.feeds[i];
            if !(crate::text::str_eq(f.name.as_str(), name_or_url) || crate::text::str_eq(
                f.url.as_str(),
                name_or_url,
            )) {
                kept.push(copy_feed(f));
            }
            i += 1;
        }
        assert(old_feeds.take(old_feeds.len() as int) =~= old_feeds);
        let unchanged = kept.len() == feeds.feeds.len();
        feeds.feeds = kept;
        if unchanged {
            return Err(FeedError::NotFound { name_or_url: name_or_url.to_owned() });
        }
        Ok(())
    }

    /// Feed names to addresses; a later feed with the same name wins.
    pub fn get_all_feeds(feeds: &CustomFeeds) -> (r: StringHashMap<String>)
        ensures
            r@ == feed_map(feeds.feeds@),
    {
        let mut m: StringHashMap<String> = StringHashMap::new();
        let mut i: usize = 0;
        while i < feeds.feeds.len()
            invariant
                i <= feeds.feeds@.len(),
                m@ == feed_map(feeds.feeds@.take(i as int)),
            decreases feeds.feeds@.len() - i,
        {
            proof {
                let t = feeds.feeds@.take(i + 1);
                assert(t.drop_last() =~= feeds.feeds@.take(i as int));
                assert(t.last() == feeds.feeds@[i as int]);
            }
            let f = &feeds.feeds[i];
            m.insert(f.name.clone(), f.url.clone());
            i += 1;
        }
        assert(feeds.feeds@.take(feeds.feeds@.len() as int) =~= feeds.feeds@);
        m
    }
}

/// Removing a feed by name or address leaves no feed that the name or address designates.
pub proof fn lemma_removed_feed_is_gone(feeds: Seq<CustomFeed>, x: Seq<char>)
    ensures
        forall|i: int|
            0 <= i < feeds_without(feeds, x).len() ==> !designates(
                #[trigger] feeds_without(feeds, x)[i],
                x,
            ),
        feeds_without(feeds, x).len() <= feeds.len(),
    decreases feeds.len(),
{
    if feeds.len() > 0 {
        lemma_removed_feed_is_gone(feeds.drop_last(), x);
        let p = feeds_without(feeds.drop_last(), x);
        if !designates(feeds.last(), x) {
            assert forall|i: int| 0 <= i < p.push(feeds.last()).len() implies !designates(
                #[trigger] p.push(feeds.last())[i],
                x,
            ) by {
                if i < p.len() {
                    assert(p.push(feeds.last())[i] == p[i]);
                }
            }
        }
    }
}

/// A feed just added can be removed again by its address, and the removal leaves the feeds
/// that were there before, less any that the address designates by name.
pub proof fn lemma_add_then_remove(feeds: Seq<CustomFeed>, added: CustomFeed)
    ensures
        feeds_without(feeds.push(added), added.url@) == feeds_without(feeds, added.url@),
        feeds_without(feeds.push(added), added.url@).len() < feeds.push(added).len(),
{
    assert(feeds.push(added).drop_last() =~= feeds);
    lemma_removed_feed_is_gone(feeds, added.url@);
}

/// The address map gives every feed's name the address of the last feed with that name.
pub proof fn lemma_feed_map_lookup(feeds: Seq<CustomFeed>, i: int)
    requires
        0 <= i < feeds.len(),
        forall|j: int| i < j < feeds.len() ==> (#[trigger] feeds[j]).name@ != feeds[i].name@,
    ensures
        feed_map(feeds).contains_key(feeds[i].name@),
        feed_map(feeds)[feeds[i].name@] == feeds[i].url,
    decreases feeds.len(),
{
    if i < feeds.len() - 1 {
        let p = feeds.drop_last();
        assert forall|j: int| i < j < p.len() implies (#[trigger] p[j]).name@ != p[i].name@ by {
            assert(p[j] == feeds[j]);
        }
        lemma_feed_map_lookup(p, i);
        assert(feeds[feeds.len() - 1].name@ != feeds[i].name@);
    }
}

} // verus!
