//! Clipboard history records: the entry stored for each copy, and the item
//! shown for it.

use vstd::prelude::*;
use crate::text::{chars_of, index_of, lemma_index_of, lemma_index_of_is, same_chars, substring};
use crate::clipboard::opt_view;

verus! {

/// One stored clipboard event, with where and when it happened.
#[derive(Debug, Clone)]
pub struct ClipboardEntry {
    pub timestamp: String,
    pub device_name: String,
    pub os_name: String,
    pub user_name: String,
    pub content_type: String,
    pub text_content: Option<String>,
    pub encrypted_data: Option<String>,
    pub file_path: Option<String>,
}

/// One clipboard event as the history shows it.
#[derive(Debug, Clone)]
pub struct ClipboardItem {
    pub content: String,
    pub device: String,
    pub os: String,
    pub time: String,
    pub user: String,
    pub content_type: String,
    pub encoded_data: Option<String>,
    pub file_path: Option<String>,
}

/// What an entry without text shows: "File data".
pub open spec fn file_data_label() -> Seq<char> {
    seq!['F', 'i', 'l', 'e', ' ', 'd', 'a', 't', 'a']
}

/// The date part of a timestamp: what comes before its first `T`, or all of
/// it when it has none.
pub open spec fn date_part(timestamp: Seq<char>) -> Seq<char> {
    let k = index_of(timestamp, 'T');
    if k < 0 {
        timestamp
    } else {
        timestamp.take(k)
    }
}

/// `item` is what the history shows for `entry`.
pub open spec fn shows(item: ClipboardItem, entry: ClipboardEntry) -> bool {
    &&& item.content@ == match entry.text_content {
        Some(t) => t@,
        None => file_data_label(),
    }
    &&& item.device@ == entry.device_name@
    &&& item.os@ == entry.os_name@
    &&& item.time@ == date_part(entry.timestamp@)
    &&& item.user@ == entry.user_name@
    &&& item.content_type@ == entry.content_type@
    &&& opt_view(item.encoded_data) == opt_view(entry.encrypted_data)
    &&& opt_view(item.file_path) == opt_view(entry.file_path)
}

/// The item shows the copied text whole, as it was stored, and "File data"
/// where the entry has no text; its time is the timestamp up to its first
/// `T` (all of it where there is none), and the rest is carried over.
pub proof fn law_item_shows_entry(item: ClipboardItem, entry: ClipboardEntry)
    requires
        shows(item, entry),
    ensures
        entry.text_content matches Some(t) ==> item.content@ == t@,
        entry.text_content is None ==> item.content@ == seq![
            'F',
            'i',
            'l',
            'e',
            ' ',
            'd',
            'a',
            't',
            'a',
        ],
        item.time@ == entry.timestamp@.take(item.time@.len() as int),
        !item.time@.contains('T'),
        item.time@.len() == entry.timestamp@.len() || entry.timestamp@[item.time@.len() as int]
            == 'T',
        item.device@ == entry.device_name@,
        item.os@ == entry.os_name@,
        item.user@ == entry.user_name@,
        item.content_type@ == entry.content_type@,
        opt_view(item.encoded_data) == opt_view(entry.encrypted_data),
        opt_view(item.file_path) == opt_view(entry.file_path),
{
    let ts = entry.timestamp@;
    lemma_index_of(ts, 'T');
    if index_of(ts, 'T') < 0 {
        assert(ts.take(ts.len() as int) =~= ts);
    }
    assert forall|i: int| 0 <= i < item.time@.len() implies item.time@[i] != 'T' by {
        assert(item.time@[i] == ts[i]);
    }
}

/// Whether an item offers its data for download: it carries encoded data
/// and its content type is "file" or "image".
pub open spec fn downloadable(item: ClipboardItem) -> bool {
    item.encoded_data is Some && (item.content_type@ == seq!['f', 'i', 'l', 'e']
        || item.content_type@ == seq!['i', 'm', 'a', 'g', 'e'])
}

/// Only items that carry encoded data offer a download, and only files and
/// images among them; text, documents and media do not.
pub proof fn law_what_downloads(item: ClipboardItem)
    ensures
        item.encoded_data is None ==> !downloadable(item),
        item.encoded_data is Some && (item.content_type@ == seq!['f', 'i', 'l', 'e']
            || item.content_type@ == seq!['i', 'm', 'a', 'g', 'e']) ==> downloadable(item),
        item.content_type@ == seq!['t', 'e', 'x', 't'] || item.content_type@ == seq![
            'd',
            'o',
            'c',
            'u',
            'm',
            'e',
            'n',
            't',
        ] || item.content_type@ == seq!['m', 'e', 'd', 'i', 'a'] ==> !downloadable(item),
{
}

/// The date part of `timestamp`.
fn date_of(timestamp: &str) -> (r: String)
    ensures
        r@ == date_part(timestamp@),
{
    let cs = chars_of(timestamp);
    let mut i: usize = 0;
    while i < cs.len() && cs[i] != 'T'
        invariant
            cs@ == timestamp@,
            i <= cs@.len(),
            forall|j: int| 0 <= j < i ==> cs@[j] != 'T',
        decreases cs@.len() - i,
    {
        i = i + 1;
    }
    proof {
        lemma_index_of_is(timestamp@, 'T', i as int);
    }
    if i == cs.len() {
        assert(timestamp@.subrange(0, i as int) =~= timestamp@);
    }
    substring(timestamp, 0, i)
}

impl ClipboardItem {
    /// The item that the history shows for `entry`: its text (or "File
    /// data"), device, system, date and user, and what it carries of a file.
    pub fn from_entry(entry: ClipboardEntry) -> (item: ClipboardItem)
        ensures
            shows(item, entry),
    {
        let content = match entry.text_content {
            Some(t) => t,
            None => {
                let label = String::from_str("File data");
                proof {
                    reveal_strlit("File data");
                }
                assert(label@ =~= file_data_label());
                label
            },
        };
        let time = date_of(entry.timestamp.as_str());
        ClipboardItem {
            content,
            device: entry.device_name,
            os: entry.os_name,
            time,
            user: entry.user_name,
            content_type: entry.content_type,
            encoded_data: entry.encrypted_data,
            file_path: entry.file_path,
        }
    }
}

impl ClipboardItem {
    /// Whether the history offers this item's data for download.
    pub fn offers_download(&self) -> (b: bool)
        ensures
            b == downloadable(*self),
    {
        if self.encoded_data.is_none() {
            return false;
        }
        let t = chars_of(self.content_type.as_str());
        same_chars(t.as_slice(), &['f', 'i', 'l', 'e']) || same_chars(
            t.as_slice(),
            &['i', 'm', 'a', 'g', 'e'],
        )
    }
}

/// The items that the history shows for `entries`, in the same order.
pub fn items_from_entries(entries: Vec<ClipboardEntry>) -> (items: Vec<ClipboardItem>)
    ensures
        items@.len() == entries@.len(),
        forall|i: int| 0 <= i < entries@.len() ==> shows(#[trigger] items@[i], entries@[i]),
{
    let ghost all = entries@;
    let mut items: Vec<ClipboardItem> = Vec::new();
    for e in it: entries
        invariant
            it.seq() == all,
            items@.len() == it.index(),
            forall|i: int| 0 <= i < it.index() ==> shows(#[trigger] items@[i], all[i]),
    {
        let ghost ge = e;
        let item = ClipboardItem::from_entry(e);
        items.push(item);
        assert(shows(items@[items@.len() - 1], ge));
    }
    items
}

fn same_optional_text(a: &Option<String>, b: &Option<String>) -> (r: bool)
    ensures
        r == (opt_view(*a) == opt_view(*b)),
{
    match (a, b) {
        (Some(x), Some(y)) => String::eq(x, y),
        (None, None) => true,
        _ => false,
    }
}

/// Two items are equal when all their texts are.
pub open spec fn same_item(a: &ClipboardItem, b: &ClipboardItem) -> bool {
    &&& a.content@ == b.content@
    &&& a.device@ == b.device@
    &&& a.os@ == b.os@
    &&& a.time@ == b.time@
    &&& a.user@ == b.user@
    &&& a.content_type@ == b.content_type@
    &&& opt_view(a.encoded_data) == opt_view(b.encoded_data)
    &&& opt_view(a.file_path) == opt_view(b.file_path)
}

impl PartialEq for ClipboardItem {
    fn eq(&self, other: &Self) -> (r: bool) {
        self.content == other.content && self.device == other.device && self.os == other.os
            && self.time == other.time && self.user == other.user && self.content_type
            == other.content_type && same_optional_text(&self.encoded_data, &other.encoded_data)
            && same_optional_text(&self.file_path, &other.file_path)
    }
}

impl vstd::std_specs::cmp::PartialEqSpecImpl for ClipboardItem {
    open spec fn obeys_eq_spec() -> bool {
        true
    }

    open spec fn eq_spec(&self, other: &Self) -> bool {
        same_item(self, other)
    }
}

} // verus!
