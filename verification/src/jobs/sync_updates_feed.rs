//! The job that publishes the feed of recent version updates.

use vstd::prelude::*;
use vstd::string::StringExecFns;
use crate::clock::valid_time;
use crate::job::copy_text;
use crate::job::text_of;
use crate::queue::DEFAULT_QUEUE;
use crate::registry::BackgroundJob;
use crate::registry::DEFAULT_MAX_ATTEMPTS;
use crate::registry::DEFAULT_PRIORITY;
use crate::registry::JobDefinition;
use crate::registry::JobDefinitionView;

verus! {

/// The job type name.
pub const JOB_NAME: &'static str = "sync_updates_feed";

/// One pending synchronisation is enough.
pub const DEDUPLICATED: bool = true;

/// Updates younger than this many seconds are always part of the feed.
pub const ALWAYS_INCLUDE_AGE_SECS: i64 = 3600;

/// The number of updates in the feed, unless more than these are younger
/// than [`ALWAYS_INCLUDE_AGE_SECS`] or fewer exist.
pub const NUM_ITEMS: usize = 100;

/// The job itself; it has no arguments.
#[derive(Clone, Copy, Debug, PartialEq, Eq, Structural)]
pub struct SyncUpdatesFeed;

impl BackgroundJob for SyncUpdatesFeed {
    open spec fn declared() -> JobDefinitionView {
        JobDefinitionView {
            job_type: JOB_NAME@,
            queue: DEFAULT_QUEUE@,
            priority: DEFAULT_PRIORITY as int,
            deduplicated: DEDUPLICATED,
            max_attempts: DEFAULT_MAX_ATTEMPTS as nat,
        }
    }

    proof fn declared_is_valid() {
        reveal_strlit("sync_updates_feed");
        reveal_strlit("default");
    }

    fn definition() -> (def: JobDefinition) {
        JobDefinition::new(JOB_NAME).with_deduplication(DEDUPLICATED)
    }
}

/// The text of the instant `timestamp` in the date format of RFC 2822, in
/// UTC, as `chrono` writes it: such as `Tue, 1 Jul 2003 10:52:37 +0000`.
pub uninterp spec fn rfc2822_text(timestamp: int) -> Seq<char>;

/// Formats `timestamp` with `chrono::DateTime::<Utc>::to_rfc2822`, after
/// `chrono::DateTime::from_timestamp` has turned it into a date and time.
///
/// Trusted, not proved. The contract only names the text. `to_rfc2822`
/// panics on years outside 0 to 9999, which the precondition rules out;
/// `from_timestamp` accepts every instant of these years.
#[verifier::external_body]
fn format_rfc2822(timestamp: i64) -> (text: String)
    requires
        valid_time(timestamp as int),
    ensures
        text@ == rfc2822_text(timestamp as int),
{
    chrono::DateTime::from_timestamp(timestamp, 0).map(|time| time.to_rfc2822()).unwrap_or_default()
}

/// A version that was published: one row of the feed's source.
#[derive(Clone, Debug)]
pub struct VersionUpdate {
    /// The name of the crate.
    pub name: String,
    /// The version number.
    pub version: String,
    /// The description of the crate, if it has one.
    pub description: Option<String>,
    /// When the version was published, in seconds since the Unix epoch.
    pub time: i64,
}

/// The mathematical content of a [`VersionUpdate`].
pub struct VersionUpdateView {
    pub name: Seq<char>,
    pub version: Seq<char>,
    pub description: Option<Seq<char>>,
    pub time: int,
}

impl View for VersionUpdate {
    type V = VersionUpdateView;

    open spec fn view(&self) -> VersionUpdateView {
        VersionUpdateView {
            name: self.name@,
            version: self.version@,
            description: text_of(self.description),
            time: self.time as int,
        }
    }
}

/// An element placed on a feed item under the `crates` namespace.
#[derive(Clone, Debug)]
pub struct FeedExtension {
    /// The key under which the element is filed: `name` or `version`.
    pub key: String,
    /// The qualified element name, such as `crates:name`.
    pub name: String,
    /// The text of the element.
    pub value: String,
}

/// The mathematical content of a [`FeedExtension`].
pub struct FeedExtensionView {
    pub key: Seq<char>,
    pub name: Seq<char>,
    pub value: Seq<char>,
}

impl View for FeedExtension {
    type V = FeedExtensionView;

    open spec fn view(&self) -> FeedExtensionView {
        FeedExtensionView { key: self.key@, name: self.name@, value: self.value@ }
    }
}

/// One item of the feed.
#[derive(Clone, Debug)]
pub struct FeedItem {
    /// The globally unique identifier: the link of the item.
    pub guid: String,
    /// Whether the identifier is a permanent link.
    pub guid_is_permalink: bool,
    /// The headline.
    pub title: String,
    /// The page of the published version.
    pub link: String,
    /// The description of the crate.
    pub description: Option<String>,
    /// The time of publication, in the date format of RFC 2822.
    pub pub_date: String,
    /// The crate name and the version, under the `crates` namespace.
    pub extensions: Vec<FeedExtension>,
}

/// The mathematical content of a [`FeedItem`].
pub struct FeedItemView {
    pub guid: Seq<char>,
    pub guid_is_permalink: bool,
    pub title: Seq<char>,
    pub link: Seq<char>,
    pub description: Option<Seq<char>>,
    pub pub_date: Seq<char>,
    pub extensions: Seq<FeedExtensionView>,
}

impl View for FeedItem {
    type V = FeedItemView;

    open spec fn view(&self) -> FeedItemView {
        FeedItemView {
            guid: self.guid@,
            guid_is_permalink: self.guid_is_permalink,
            title: self.title@,
            link: self.link@,
            description: text_of(self.description),
            pub_date: self.pub_date@,
            extensions: self.extensions@.map_values(|e: FeedExtension| e@),
        }
    }
}

impl VersionUpdateView {
    /// The headline of the feed item for this update.
    pub open spec fn title(self) -> Seq<char> {
        "New crate version published: "@ + self.name + " v"@ + self.version
    }

    /// The page of this version on the registry at `domain`.
    pub open spec fn link(self, domain: Seq<char>) -> Seq<char> {
        "https://"@ + domain + "/crates/"@ + self.name + "/"@ + self.version
    }

    /// The feed item for this update on the registry at `domain`.
    pub open spec fn feed_item(self, domain: Seq<char>) -> FeedItemView {
        FeedItemView {
            guid: self.link(domain),
            guid_is_permalink: true,
            title: self.title(),
            link: self.link(domain),
            description: self.description,
            pub_date: rfc2822_text(self.time),
            extensions: seq![
                FeedExtensionView { key: "name"@, name: "crates:name"@, value: self.name },
                FeedExtensionView { key: "version"@, name: "crates:version"@, value: self.version },
            ],
        }
    }
}

impl VersionUpdate {
    /// An independent copy of this update.
    pub fn duplicate(&self) -> (copy: VersionUpdate)
        ensures
            copy@ == self@,
    {
        VersionUpdate {
            name: self.name.clone(),
            version: self.version.clone(),
            description: copy_text(&self.description),
            time: self.time,
        }
    }

    /// Turns the update into its feed item on the registry at `domain`.
    ///
    /// The time of publication has to lie in the years 0 to 9999, which are
    /// all that the date format can express.
    pub fn into_feed_item(self, domain: &str) -> (item: FeedItem)
        requires
            valid_time(self@.time),
        ensures
            item@ == self@.feed_item(domain@),
    {
        let mut title = "New crate version published: ".to_owned();
        title.append(self.name.as_str());
        title.append(" v");
        title.append(self.version.as_str());
        let mut link = "https://".to_owned();
        link.append(domain);
        link.append("/crates/");
        link.append(self.name.as_str());
        link.append("/");
        link.append(self.version.as_str());
        let pub_date = format_rfc2822(self.time);
        let name_extension = FeedExtension {
            key: "name".to_owned(),
            name: "crates:name".to_owned(),
            value: self.name,
        };
        let version_extension = FeedExtension {
            key: "version".to_owned(),
            name: "crates:version".to_owned(),
            value: self.version,
        };
        let mut extensions: Vec<FeedExtension> = Vec::new();
        extensions.push(name_extension);
        extensions.push(version_extension);
        let item = FeedItem {
            guid: link.clone(),
            guid_is_permalink: true,
            title,
            link,
            description: self.description,
            pub_date,
            extensions,
        };
        assert(item@.extensions =~= self@.feed_item(domain@).extensions);
        item
    }
}

/// The link by which the feed refers to itself.
#[derive(Clone, Debug)]
pub struct FeedLink {
    /// The address of the feed.
    pub href: String,
    /// The relation of the link: `self`.
    pub rel: String,
    /// The media type of the feed.
    pub mime_type: String,
}

/// The mathematical content of a [`FeedLink`].
pub struct FeedLinkView {
    pub href: Seq<char>,
    pub rel: Seq<char>,
    pub mime_type: Seq<char>,
}

impl View for FeedLink {
    type V = FeedLinkView;

    open spec fn view(&self) -> FeedLinkView {
        FeedLinkView { href: self.href@, rel: self.rel@, mime_type: self.mime_type@ }
    }
}

/// The feed of recent version updates.
#[derive(Clone, Debug)]
pub struct FeedChannel {
    /// The name of the feed.
    pub title: String,
    /// The front page of the registry.
    pub link: String,
    /// What the feed is about.
    pub description: String,
    /// The language of the feed.
    pub language: String,
    /// The link by which the feed refers to itself.
    pub self_link: FeedLink,
    /// The prefix of the namespace of the extension elements.
    pub namespace_prefix: String,
    /// The address of that namespace.
    pub namespace_url: String,
    /// The items, in the order of the updates.
    pub items: Vec<FeedItem>,
}

/// The mathematical content of a [`FeedChannel`].
pub struct FeedChannelView {
    pub title: Seq<char>,
    pub link: Seq<char>,
    pub description: Seq<char>,
    pub language: Seq<char>,
    pub self_link: FeedLinkView,
    pub namespace_prefix: Seq<char>,
    pub namespace_url: Seq<char>,
    pub items: Seq<FeedItemView>,
}

impl View for FeedChannel {
    type V = FeedChannelView;

    open spec fn view(&self) -> FeedChannelView {
        FeedChannelView {
            title: self.title@,
            link: self.link@,
            description: self.description@,
            language: self.language@,
            self_link: self.self_link@,
            namespace_prefix: self.namespace_prefix@,
            namespace_url: self.namespace_url@,
            items: item_views(self.items@),
        }
    }
}

/// The content of a vector of feed items.
pub open spec fn item_views(items: Seq<FeedItem>) -> Seq<FeedItemView> {
    items.map_values(|item: FeedItem| item@)
}

/// The content of a vector of updates.
pub open spec fn update_views(updates: Seq<VersionUpdate>) -> Seq<VersionUpdateView> {
    updates.map_values(|update: VersionUpdate| update@)
}

/// The feed of `updates` for the registry at `domain`, published at
/// `feed_url`: one item per update, in the same order.
pub open spec fn channel_for(
    domain: Seq<char>,
    feed_url: Seq<char>,
    updates: Seq<VersionUpdateView>,
) -> FeedChannelView {
    FeedChannelView {
        title: "crates.io: recent updates"@,
        link: "https://"@ + domain + "/"@,
        description: "Recent version publishes on the crates.io package registry"@,
        language: "en"@,
        self_link: FeedLinkView {
            href: feed_url,
            rel: "self"@,
            mime_type: "application/rss+xml"@,
        },
        namespace_prefix: "crates"@,
        namespace_url: "https://crates.io/"@,
        items: updates.map_values(|update: VersionUpdateView| update.feed_item(domain)),
    }
}

/// Builds the feed of `updates` for the registry at `domain`, published at
/// `feed_url`.
///
/// Every time of publication has to lie in the years 0 to 9999.
pub fn build_channel(domain: &str, feed_url: String, updates: &Vec<VersionUpdate>) -> (channel:
    FeedChannel)
    requires
        forall|i: int| 0 <= i < updates.len() ==> valid_time((#[trigger] updates[i]).time as int),
    ensures
        channel@ == channel_for(domain@, feed_url@, update_views(updates@)),
{
    let mut items: Vec<FeedItem> = Vec::new();
    let mut i: usize = 0;
    while i < updates.len()
        invariant
            i <= updates.len(),
            forall|k: int|
                0 <= k < updates.len() ==> valid_time((#[trigger] updates[k]).time as int),
            items.len() == i,
            forall|k: int|
                0 <= k < i ==> (#[trigger] items[k])@ == updates[k]@.feed_item(domain@),
        decreases updates.len() - i,
    {
        let item = updates[i].duplicate().into_feed_item(domain);
        items.push(item);
        i = i + 1;
    }
    let mut link = "https://".to_owned();
    link.append(domain);
    link.append("/");
    let channel = FeedChannel {
        title: "crates.io: recent updates".to_owned(),
        link,
        description: "Recent version publishes on the crates.io package registry".to_owned(),
        language: "en".to_owned(),
        self_link: FeedLink {
            href: feed_url,
            rel: "self".to_owned(),
            mime_type: "application/rss+xml".to_owned(),
        },
        namespace_prefix: "crates".to_owned(),
        namespace_url: "https://crates.io/".to_owned(),
        items,
    };
    assert(channel@.items =~= channel_for(domain@, feed_url@, update_views(updates@)).items);
    channel
}

/// The updates of `updates` that were published after `threshold`, in their
/// order.
pub open spec fn published_after(updates: Seq<VersionUpdateView>, threshold: int) -> Seq<
    VersionUpdateView,
>
    decreases updates.len(),
{
    if updates.len() == 0 {
        Seq::empty()
    } else if updates.last().time > threshold {
        published_after(updates.drop_last(), threshold).push(updates.last())
    } else {
        published_after(updates.drop_last(), threshold)
    }
}

/// The updates that the feed shows at time `now`, out of all updates with
/// the newest first.
///
/// All updates younger than [`ALWAYS_INCLUDE_AGE_SECS`] are shown. If these
/// are fewer than [`NUM_ITEMS`], the first [`NUM_ITEMS`] of all updates are
/// shown instead, or all of them if there are fewer.
pub open spec fn feed_selection(newest_first: Seq<VersionUpdateView>, now: int) -> Seq<
    VersionUpdateView,
> {
    let recent = published_after(newest_first, now - ALWAYS_INCLUDE_AGE_SECS);
    if recent.len() >= NUM_ITEMS {
        recent
    } else if newest_first.len() <= NUM_ITEMS {
        newest_first
    } else {
        newest_first.take(NUM_ITEMS as int)
    }
}

/// Whether `num_recent` updates younger than [`ALWAYS_INCLUDE_AGE_SECS`]
/// fill the feed, so that no older update has to be loaded.
pub fn fills_feed(num_recent: usize) -> (full: bool)
    ensures
        full == (num_recent >= NUM_ITEMS),
{
    num_recent >= NUM_ITEMS
}

/// Selects the updates that the feed shows at time `now`, out of all
/// updates with the newest first.
pub fn select_updates(newest_first: &Vec<VersionUpdate>, now: i64) -> (selected: Vec<VersionUpdate>)
    ensures
        update_views(selected@) == feed_selection(update_views(newest_first@), now as int),
{
    let ghost all = update_views(newest_first@);
    let ghost threshold = now - ALWAYS_INCLUDE_AGE_SECS;
    let mut recent: Vec<VersionUpdate> = Vec::new();
    let mut i: usize = 0;
    while i < newest_first.len()
        invariant
            i <= newest_first.len(),
            all == update_views(newest_first@),
            threshold == now - ALWAYS_INCLUDE_AGE_SECS,
            update_views(recent@) == published_after(all.take(i as int), threshold),
        decreases newest_first.len() - i,
    {
        proof {
            assert(all.take(i + 1).drop_last() =~= all.take(i as int));
            assert(all.take(i + 1).last() == all[i as int]);
        }
        if (newest_first[i].time as i128) > (now as i128) - (ALWAYS_INCLUDE_AGE_SECS as i128) {
            let ghost before = update_views(recent@);
            let update = newest_first[i].duplicate();
            recent.push(update);
            assert(update_views(recent@) =~= before.push(update@));
        }
        i = i + 1;
    }
    proof {
        assert(all.take(i as int) =~= all);
    }
    if fills_feed(recent.len()) {
        return recent;
    }
    let mut selected: Vec<VersionUpdate> = Vec::new();
    let mut k: usize = 0;
    while k < newest_first.len() && k < NUM_ITEMS
        invariant
            k <= newest_first.len(),
            k <= NUM_ITEMS,
            all == update_views(newest_first@),
            update_views(selected@) == all.take(k as int),
        decreases newest_first.len() - k,
    {
        let ghost before = update_views(selected@);
        let update = newest_first[k].duplicate();
        selected.push(update);
        proof {
            assert(update_views(selected@) =~= before.push(update@));
            assert(all.take(k + 1) =~= all.take(k as int).push(all[k as int]));
        }
        k = k + 1;
    }
    proof {
        if newest_first.len() <= NUM_ITEMS {
            assert(all.take(k as int) =~= all);
        }
    }
    selected
}

} // verus!
