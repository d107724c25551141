//! The state of the user interface and how each user action changes it.

use vstd::prelude::*;
use vstd::string::*;
use crate::clipboard::opt_view;
use crate::codec::{b64_encode, base64_decode, law_base64_injective};
use crate::path::{file_name, file_name_of};
use crate::storage::ClipboardItem;
use crate::text::{chars_of, contains, contains_seq};

verus! {

/// The page on show.
#[derive(Debug, Clone, Copy, PartialEq, Eq, Structural)]
pub enum Page {
    Dashboard,
    Settings,
    About,
}

/// The compression level chosen for image transfers.
#[derive(Debug, Clone, Copy, PartialEq, Eq, Structural)]
pub enum CompressionQuality {
    Default,
    Normal,
    High,
}

/// How long received data is kept.
#[derive(Debug, Clone, Copy, PartialEq, Eq, Structural)]
pub enum DataRetention {
    Manual,
    OneDay,
    OneWeek,
    OneMonth,
}

/// Whether this device hosts or joins a host.
#[derive(Debug, Clone, Copy, PartialEq, Eq, Structural)]
pub enum ConnectionMode {
    Host,
    Node,
}

impl DataRetention {
    /// Every retention choice, in the order the settings offer them.
    pub fn all() -> (v: Vec<DataRetention>)
        ensures
            v@ == seq![
                DataRetention::Manual,
                DataRetention::OneDay,
                DataRetention::OneWeek,
                DataRetention::OneMonth,
            ],
    {
        let mut v: Vec<DataRetention> = Vec::new();
        v.push(DataRetention::Manual);
        v.push(DataRetention::OneDay);
        v.push(DataRetention::OneWeek);
        v.push(DataRetention::OneMonth);
        v
    }

    /// The label that the settings show for this choice.
    pub fn label(&self) -> (s: &'static str)
        ensures
            s@ == retention_label(*self),
    {
        match self {
            DataRetention::Manual => "Until Manual Deletion",
            DataRetention::OneDay => "1 Day",
            DataRetention::OneWeek => "1 Week",
            DataRetention::OneMonth => "1 Month",
        }
    }
}

/// The label of a retention choice.
pub open spec fn retention_label(r: DataRetention) -> Seq<char> {
    match r {
        DataRetention::Manual => "Until Manual Deletion"@,
        DataRetention::OneDay => "1 Day"@,
        DataRetention::OneWeek => "1 Week"@,
        DataRetention::OneMonth => "1 Month"@,
    }
}

/// The settings name the retention choices "Until Manual Deletion", "1 Day",
/// "1 Week" and "1 Month", no two alike.
pub proof fn law_retention_labels(r: DataRetention, q: DataRetention)
    ensures
        r == DataRetention::Manual ==> retention_label(r) == seq![
            'U', 'n', 't', 'i', 'l', ' ', 'M', 'a', 'n', 'u', 'a', 'l', ' ', 'D', 'e', 'l', 'e',
            't', 'i', 'o', 'n',
        ],
        r == DataRetention::OneDay ==> retention_label(r) == seq!['1', ' ', 'D', 'a', 'y'],
        r == DataRetention::OneWeek ==> retention_label(r) == seq!['1', ' ', 'W', 'e', 'e', 'k'],
        r == DataRetention::OneMonth ==> retention_label(r) == seq![
            '1',
            ' ',
            'M',
            'o',
            'n',
            't',
            'h',
        ],
        r != q ==> retention_label(r) != retention_label(q),
{
    reveal_strlit("Until Manual Deletion");
    reveal_strlit("1 Day");
    reveal_strlit("1 Week");
    reveal_strlit("1 Month");
    assert(retention_label(r).len() != retention_label(q).len() || r == q);
}

/// Everything the interface shows and the settings it keeps.
#[derive(Debug, Clone)]
pub struct Display {
    pub current_page: Page,
    pub clip_data: Vec<ClipboardItem>,
    pub search_text: String,
    pub connected_devices: u8,
    pub active_transfers: u8,
    pub darkmode: bool,
    pub compression_quality: CompressionQuality,
    pub secure_transfer: bool,
    pub data_retention: DataRetention,
    pub connection_mode: ConnectionMode,
    pub host_ip: String,
    pub port: String,
    pub host_duration: String,
    pub image_decode_input: String,
    pub custom_save_dir: String,
    pub connected_users: u8,
    pub file_transfers: u8,
}

/// A user action.
#[derive(Debug, Clone)]
pub enum Messages {
    TabChanged(Page),
    SearchChanged(String),
    ClearAll,
    ToggleTheme,
    SecureTransferToggled(bool),
    CompressionChanged(CompressionQuality),
    DataRetentionChanged(DataRetention),
    ConnectionModeChanged(ConnectionMode),
    HostIPChanged(String),
    PortChanged(String),
    HostDurationChanged(String),
    StartHosting,
    ConnectToHost,
    ReloadData,
    ImageDecodeInputChanged(String),
    CustomSaveDirChanged(String),
    DecodeImage,
    ShowLatestImageData,
    DownloadFile(ClipboardItem),
    CopyEncryptedData(ClipboardItem),
}

/// What the program around the interface is to do after an action.
#[derive(Debug)]
pub enum Effect {
    /// Nothing.
    Nothing,
    /// Load the history and, if that succeeds, hand it to `history_loaded`.
    LoadHistory,
    /// As `LoadHistory`, then report how many entries were loaded.
    ReloadHistory,
    /// Delete the stored history, reporting an error if that fails.
    ClearHistory,
    /// Report that hosting starts at this address and port.
    AnnounceHosting { host_ip: String, port: String },
    /// Report that a connection to this host and port is made.
    AnnounceConnecting { host_ip: String, port: String },
    /// Write the decoded image into `dir` under a time-stamped name, then
    /// call `image_saved` if that succeeds.
    SaveDecodedImage { dir: String, bytes: Vec<u8> },
    /// Report the latest image entry.
    ReportImageFound { content: String },
    /// Report that the history holds no image.
    ReportNoImage,
    /// Write a downloaded file into `dir`, under `file_name`, or under a
    /// time-stamped name where that is `None`.
    SaveDownload { dir: String, file_name: Option<String>, bytes: Vec<u8> },
    /// Report that the encoded data went into the decoder input.
    ReportCopied,
}

/// The two characters of the image marker that image entries start with.
pub open spec fn image_marker() -> Seq<char> {
    seq!['\u{1F5BC}', '\u{FE0F}']
}

/// Position of the latest item whose text holds the image marker, or -1.
pub open spec fn latest_image(items: Seq<ClipboardItem>) -> int
    decreases items.len(),
{
    if items.len() == 0 {
        -1
    } else if contains_seq(items.last().content@, image_marker()) {
        items.len() - 1
    } else {
        latest_image(items.drop_last())
    }
}

/// `latest_image` is the last item whose text holds the image marker 🖼️: that
/// item holds it and no later one does; -1 exactly when none holds it.
pub proof fn law_latest_image_is_last_marked(items: Seq<ClipboardItem>)
    ensures
        -1 <= latest_image(items) < items.len(),
        latest_image(items) >= 0 ==> contains_seq(
            items[latest_image(items)].content@,
            seq!['\u{1F5BC}', '\u{FE0F}'],
        ),
        forall|j: int|
            latest_image(items) < j < items.len() ==> !contains_seq(
                #[trigger] items[j].content@,
                seq!['\u{1F5BC}', '\u{FE0F}'],
            ),
    decreases items.len(),
{
    if items.len() > 0 && !contains_seq(items.last().content@, image_marker()) {
        let rest = items.drop_last();
        law_latest_image_is_last_marked(rest);
        assert forall|j: int| latest_image(items) < j < items.len() implies !contains_seq(
            #[trigger] items[j].content@,
            seq!['\u{1F5BC}', '\u{FE0F}'],
        ) by {
            if j < items.len() - 1 {
                assert(items[j] == rest[j]);
            }
        }
    }
}

/// What the decoder input shows once an image entry was found.
pub open spec fn image_found_note() -> Seq<char> {
    "Image data found - check console for details"@
}

/// The name under which a downloaded file is saved: the file name of its
/// path ("downloaded_file" where the path has none); `None` (a time-stamped
/// name) where the item has no path.
pub open spec fn download_name(file_path: Option<String>) -> Option<Seq<char>> {
    match file_path {
        Some(p) => Some(
            match file_name_of(p@) {
                Some(n) => n,
                None => "downloaded_file"@,
            },
        ),
        None => None,
    }
}

/// Whether `text` is the base64 text of some bytes.
pub open spec fn decodable(text: Seq<char>) -> bool {
    exists|x: Seq<u8>| b64_encode(x) == text
}

/// How an action changes the interface, and what it asks of the program.
pub open spec fn transition(d: Display, m: Messages, after: Display, e: Effect) -> bool {
    match m {
        Messages::TabChanged(page) => after == (Display { current_page: page, ..d }) && (if page
            == Page::Dashboard {
            e is LoadHistory
        } else {
            e is Nothing
        }),
        Messages::SearchChanged(t) => after == (Display { search_text: t, ..d }) && e is Nothing,
        Messages::ClearAll => after == (Display { clip_data: after.clip_data, ..d })
            && after.clip_data@.len() == 0 && e is ClearHistory,
        Messages::ToggleTheme => after == (Display { darkmode: !d.darkmode, ..d }) && e is Nothing,
        Messages::SecureTransferToggled(b) => after == (Display { secure_transfer: b, ..d })
            && e is Nothing,
        Messages::CompressionChanged(q) => after == (Display { compression_quality: q, ..d })
            && e is Nothing,
        Messages::DataRetentionChanged(r) => after == (Display { data_retention: r, ..d })
            && e is Nothing,
        Messages::ConnectionModeChanged(c) => after == (Display { connection_mode: c, ..d })
            && e is Nothing,
        Messages::HostIPChanged(t) => after == (Display { host_ip: t, ..d }) && e is Nothing,
        Messages::PortChanged(t) => after == (Display { port: t, ..d }) && e is Nothing,
        Messages::HostDurationChanged(t) => after == (Display { host_duration: t, ..d })
            && e is Nothing,
        Messages::StartHosting => {
            &&& after == (Display { connected_devices: (d.connected_devices + 1) as u8, ..d })
            &&& e matches Effect::AnnounceHosting { host_ip, port } && host_ip@ == d.host_ip@
                && port@ == d.port@
        },
        Messages::ConnectToHost => {
            &&& after == (Display { active_transfers: (d.active_transfers + 1) as u8, ..d })
            &&& e matches Effect::AnnounceConnecting { host_ip, port } && host_ip@ == d.host_ip@
                && port@ == d.port@
        },
        Messages::ReloadData => after == d && e is ReloadHistory,
        Messages::ImageDecodeInputChanged(t) => after == (Display { image_decode_input: t, ..d })
            && e is Nothing,
        Messages::CustomSaveDirChanged(t) => after == (Display { custom_save_dir: t, ..d })
            && e is Nothing,
        Messages::DecodeImage => after == d && if decodable(d.image_decode_input@) {
            e matches Effect::SaveDecodedImage { dir, bytes } && dir@ == d.custom_save_dir@
                && b64_encode(bytes@) == d.image_decode_input@
        } else {
            e is Nothing
        },
        Messages::ShowLatestImageData => {
            let k = latest_image(d.clip_data@);
            if k >= 0 {
                &&& after == (Display { image_decode_input: after.image_decode_input, ..d })
                &&& after.image_decode_input@ == image_found_note()
                &&& e matches Effect::ReportImageFound { content } && content@
                    == d.clip_data@[k].content@
            } else {
                after == d && e is ReportNoImage
            }
        },
        Messages::DownloadFile(item) => after == d && match item.encoded_data {
            Some(enc) => if decodable(enc@) {
                e matches Effect::SaveDownload { dir, file_name, bytes } && dir@
                    == d.custom_save_dir@ && opt_view(file_name) == download_name(item.file_path)
                    && b64_encode(bytes@) == enc@
            } else {
                e is Nothing
            },
            None => e is Nothing,
        },
        Messages::CopyEncryptedData(item) => match item.encoded_data {
            Some(enc) => after == (Display { image_decode_input: after.image_decode_input, ..d })
                && after.image_decode_input@ == enc@ && e is ReportCopied,
            None => after == d && e is Nothing,
        },
    }
}

/// Whether the interface can take the action without a counter overflowing.
pub open spec fn accepts(d: Display, m: Messages) -> bool {
    &&& m is StartHosting ==> d.connected_devices < 255
    &&& m is ConnectToHost ==> d.active_transfers < 255
}

/// Position of the latest item of `items` whose text holds the image
/// marker.
fn find_latest_image(items: &Vec<ClipboardItem>) -> (r: Option<usize>)
    ensures
        match r {
            Some(k) => k == latest_image(items@) && k < items@.len(),
            None => latest_image(items@) < 0,
        },
{
    let mut i: usize = items.len();
    assert(items@.take(i as int) =~= items@);
    while i > 0
        invariant
            i <= items@.len(),
            latest_image(items@) == latest_image(items@.take(i as int)),
        decreases i,
    {
        let cs = chars_of(items[i - 1].content.as_str());
        assert(items@.take(i as int).last() == items@[i - 1]);
        assert(items@.take(i as int).drop_last() =~= items@.take(i - 1));
        if contains(cs.as_slice(), &['\u{1F5BC}', '\u{FE0F}']) {
            return Some(i - 1);
        }
        i = i - 1;
    }
    None
}

/// The name under which a downloaded file is saved.
fn download_file_name(file_path: &Option<String>) -> (r: Option<String>)
    ensures
        opt_view(r) == download_name(*file_path),
{
    match file_path {
        Some(p) => match file_name(p.as_str()) {
            Some(n) => Some(n),
            None => Some(String::from_str("downloaded_file")),
        },
        None => None,
    }
}

impl Display {
    /// The interface as it starts: the dashboard, the loaded history, the
    /// detected address, the dark theme, default compression, secure
    /// transfer on, manual retention, host mode, port 7879.
    pub fn new(clip_data: Vec<ClipboardItem>, host_ip: String) -> (d: Display)
        ensures
            d.current_page == Page::Dashboard,
            d.clip_data == clip_data,
            d.search_text@.len() == 0,
            d.connected_devices == 0,
            d.active_transfers == 0,
            d.darkmode,
            d.compression_quality == CompressionQuality::Default,
            d.secure_transfer,
            d.data_retention == DataRetention::Manual,
            d.connection_mode == ConnectionMode::Host,
            d.host_ip == host_ip,
            d.port@ == "7879"@,
            d.host_duration@ == "30 minutes"@,
            d.image_decode_input@.len() == 0,
            d.custom_save_dir@ == "/home/aadhiishvar/Downloads"@,
            d.connected_users == 0,
            d.file_transfers == 0,
    {
        Display {
            current_page: Page::Dashboard,
            clip_data,
            search_text: String::new(),
            connected_devices: 0,
            active_transfers: 0,
            darkmode: true,
            compression_quality: CompressionQuality::Default,
            secure_transfer: true,
            data_retention: DataRetention::Manual,
            connection_mode: ConnectionMode::Host,
            host_ip,
            port: String::from_str("7879"),
            host_duration: String::from_str("30 minutes"),
            image_decode_input: String::new(),
            custom_save_dir: String::from_str("/home/aadhiishvar/Downloads"),
            connected_users: 0,
            file_transfers: 0,
        }
    }

    /// The title of the window.
    pub fn title(&self) -> (s: String)
        ensures
            s@ == "GraBbit"@,
    {
        String::from_str("GraBbit")
    }

    /// Apply a user action: change the interface as `transition` says and
    /// give back what the program around it is to do.
    pub fn update(&mut self, message: Messages) -> (e: Effect)
        requires
            accepts(*old(self), message),
        ensures
            transition(*old(self), message, *final(self), e),
    {
        match message {
            Messages::TabChanged(page) => {
                self.current_page = page;
                if page == Page::Dashboard {
                    Effect::LoadHistory
                } else {
                    Effect::Nothing
                }
            },
            Messages::SearchChanged(text) => {
                self.search_text = text;
                Effect::Nothing
            },
            Messages::ClearAll => {
                self.clip_data.clear();
                Effect::ClearHistory
            },
            Messages::ToggleTheme => {
                self.darkmode = !self.darkmode;
                Effect::Nothing
            },
            Messages::SecureTransferToggled(enabled) => {
                self.secure_transfer = enabled;
                Effect::Nothing
            },
            Messages::CompressionChanged(quality) => {
                self.compression_quality = quality;
                Effect::Nothing
            },
            Messages::DataRetentionChanged(retention) => {
                self.data_retention = retention;
                Effect::Nothing
            },
            Messages::ConnectionModeChanged(mode) => {
                self.connection_mode = mode;
                Effect::Nothing
            },
            Messages::HostIPChanged(ip) => {
                self.host_ip = ip;
                Effect::Nothing
            },
            Messages::PortChanged(port) => {
                self.port = port;
                Effect::Nothing
            },
            Messages::HostDurationChanged(duration) => {
                self.host_duration = duration;
                Effect::Nothing
            },
            Messages::StartHosting => {
                let e = Effect::AnnounceHosting {
                    host_ip: self.host_ip.clone(),
                    port: self.port.clone(),
                };
                self.connected_devices = self.connected_devices + 1;
                e
            },
            Messages::ConnectToHost => {
                let e = Effect::AnnounceConnecting {
                    host_ip: self.host_ip.clone(),
                    port: self.port.clone(),
                };
                self.active_transfers = self.active_transfers + 1;
                e
            },
            Messages::ReloadData => Effect::ReloadHistory,
            Messages::ImageDecodeInputChanged(input) => {
                self.image_decode_input = input;
                Effect::Nothing
            },
            Messages::CustomSaveDirChanged(dir) => {
                self.custom_save_dir = dir;
                Effect::Nothing
            },
            Messages::DecodeImage => match base64_decode(self.image_decode_input.as_str()) {
                Some(bytes) => Effect::SaveDecodedImage { dir: self.custom_save_dir.clone(), bytes },
                None => Effect::Nothing,
            },
            Messages::ShowLatestImageData => match find_latest_image(&self.clip_data) {
                Some(k) => {
                    let content = self.clip_data[k].content.clone();
                    self.image_decode_input = String::from_str(
                        "Image data found - check console for details",
                    );
                    Effect::ReportImageFound { content }
                },
                None => Effect::ReportNoImage,
            },
            Messages::DownloadFile(item) => match &item.encoded_data {
                Some(encoded) => match base64_decode(encoded.as_str()) {
                    Some(bytes) => Effect::SaveDownload {
                        dir: self.custom_save_dir.clone(),
                        file_name: download_file_name(&item.file_path),
                        bytes,
                    },
                    None => Effect::Nothing,
                },
                None => Effect::Nothing,
            },
            Messages::CopyEncryptedData(item) => match &item.encoded_data {
                Some(encoded) => {
                    self.image_decode_input = encoded.clone();
                    Effect::ReportCopied
                },
                None => Effect::Nothing,
            },
        }
    }

    /// The history was loaded: show it.
    pub fn history_loaded(&mut self, items: Vec<ClipboardItem>)
        ensures
            *final(self) == (Display { clip_data: items, ..*old(self) }),
    {
        self.clip_data = items;
    }

    /// The decoded image was written: empty the decoder input.
    pub fn image_saved(&mut self)
        ensures
            *final(self) == (Display { image_decode_input: final(self).image_decode_input, ..*old(self) }),
            final(self).image_decode_input@.len() == 0,
    {
        self.image_decode_input = String::new();
    }
}

/// Each edit of a setting or a text field stores the value given, changes
/// nothing else and asks nothing of the program.
pub proof fn law_edits_store_the_value(d: Display, m: Messages, after: Display, e: Effect)
    requires
        transition(d, m, after, e),
    ensures
        m matches Messages::SearchChanged(t) ==> after.search_text == t && after == (Display {
            search_text: after.search_text,
            ..d
        }) && e is Nothing,
        m matches Messages::SecureTransferToggled(b) ==> after.secure_transfer == b && after == (
        Display { secure_transfer: after.secure_transfer, ..d }) && e is Nothing,
        m matches Messages::CompressionChanged(q) ==> after.compression_quality == q && after == (
        Display { compression_quality: after.compression_quality, ..d }) && e is Nothing,
        m matches Messages::DataRetentionChanged(r) ==> after.data_retention == r && after == (
        Display { data_retention: after.data_retention, ..d }) && e is Nothing,
        m matches Messages::ConnectionModeChanged(c) ==> after.connection_mode == c && after == (
        Display { connection_mode: after.connection_mode, ..d }) && e is Nothing,
        m matches Messages::HostIPChanged(t) ==> after.host_ip == t && after == (Display {
            host_ip: after.host_ip,
            ..d
        }) && e is Nothing,
        m matches Messages::PortChanged(t) ==> after.port == t && after == (Display {
            port: after.port,
            ..d
        }) && e is Nothing,
        m matches Messages::HostDurationChanged(t) ==> after.host_duration == t && after == (
        Display { host_duration: after.host_duration, ..d }) && e is Nothing,
        m matches Messages::ImageDecodeInputChanged(t) ==> after.image_decode_input == t && after
            == (Display { image_decode_input: after.image_decode_input, ..d }) && e is Nothing,
        m matches Messages::CustomSaveDirChanged(t) ==> after.custom_save_dir == t && after == (
        Display { custom_save_dir: after.custom_save_dir, ..d }) && e is Nothing,
        m is ToggleTheme ==> after.darkmode == !d.darkmode,
{
}

/// Moving to a page shows it; the dashboard reloads the history, the other
/// pages ask for nothing.
pub proof fn law_pages(d: Display, p: Page, after: Display, e: Effect)
    requires
        transition(d, Messages::TabChanged(p), after, e),
    ensures
        after.current_page == p,
        after == (Display { current_page: after.current_page, ..d }),
        p == Page::Dashboard ==> e is LoadHistory,
        p != Page::Dashboard ==> e is Nothing,
{
}

/// Hosting counts one more connected device and announces the host's address
/// and port; connecting counts one more transfer and announces where it
/// connects; clearing empties the shown history and deletes the stored one;
/// reloading changes nothing here and reloads the history.
pub proof fn law_counters_and_history(d: Display, m: Messages, after: Display, e: Effect)
    requires
        transition(d, m, after, e),
        accepts(d, m),
    ensures
        m is StartHosting ==> after.connected_devices == d.connected_devices + 1
            && after.active_transfers == d.active_transfers && after.clip_data == d.clip_data && (
        e matches Effect::AnnounceHosting { host_ip, port } && host_ip@ == d.host_ip@ && port@
            == d.port@),
        m is ConnectToHost ==> after.active_transfers == d.active_transfers + 1
            && after.connected_devices == d.connected_devices && after.clip_data == d.clip_data && (
        e matches Effect::AnnounceConnecting { host_ip, port } && host_ip@ == d.host_ip@ && port@
            == d.port@),
        m is ClearAll ==> after.clip_data@.len() == 0 && after.darkmode == d.darkmode
            && e is ClearHistory,
        m is ReloadData ==> after == d && e is ReloadHistory,
{
}

/// Copying the encoded data of an item puts exactly that text into the
/// decoder input; an item without data changes nothing.
pub proof fn law_copy_encoded_data(d: Display, item: ClipboardItem, after: Display, e: Effect)
    requires
        transition(d, Messages::CopyEncryptedData(item), after, e),
    ensures
        item.encoded_data matches Some(enc) ==> after.image_decode_input@ == enc@ && after == (
        Display { image_decode_input: after.image_decode_input, ..d }) && e is ReportCopied,
        item.encoded_data is None ==> after == d && e is Nothing,
{
}

/// Text in the decoder input that is not the base64 of any bytes saves
/// nothing, and an item without encoded data downloads nothing.
pub proof fn law_undecodable_saves_nothing(d: Display, m: Messages, after: Display, e: Effect)
    requires
        transition(d, m, after, e),
    ensures
        m is DecodeImage && (forall|x: Seq<u8>| b64_encode(x) != d.image_decode_input@) ==> after
            == d && e is Nothing,
        (m matches Messages::DownloadFile(item) && item.encoded_data is None) ==> after == d
            && e is Nothing,
{
}

/// A download is saved under the file name of the item's path,
/// "downloaded_file" where that path has none, and under a time-stamped name
/// where the item has no path.
pub proof fn law_download_name(file_path: Option<String>)
    ensures
        match file_path {
            Some(p) => match file_name_of(p@) {
                Some(n) => download_name(file_path) == Some(n),
                None => download_name(file_path) == Some("downloaded_file"@),
            },
            None => download_name(file_path) is None,
        },
{
}

/// Toggling the theme twice gives back the interface as it was.
pub proof fn law_toggle_theme_twice(d0: Display, d1: Display, d2: Display, e1: Effect, e2: Effect)
    requires
        transition(d0, Messages::ToggleTheme, d1, e1),
        transition(d1, Messages::ToggleTheme, d2, e2),
    ensures
        d2 == d0,
{
}

/// Asking for the latest image reports the text of the last history item
/// that holds the image marker, and puts a note into the decoder input; where
/// no item holds it, "no image" is reported and nothing changes.
pub proof fn law_show_latest_image(d: Display, after: Display, e: Effect)
    requires
        transition(d, Messages::ShowLatestImageData, after, e),
    ensures
        (exists|k: int|
            0 <= k < d.clip_data@.len() && contains_seq(
                #[trigger] d.clip_data@[k].content@,
                seq!['\u{1F5BC}', '\u{FE0F}'],
            )) ==> exists|k: int|
            0 <= k < d.clip_data@.len() && contains_seq(
                d.clip_data@[k].content@,
                seq!['\u{1F5BC}', '\u{FE0F}'],
            ) && (forall|j: int|
                k < j < d.clip_data@.len() ==> !contains_seq(
                    #[trigger] d.clip_data@[j].content@,
                    seq!['\u{1F5BC}', '\u{FE0F}'],
                )) && (e matches Effect::ReportImageFound { content } && content@
                == d.clip_data@[k].content@),
        (forall|k: int|
            0 <= k < d.clip_data@.len() ==> !contains_seq(
                #[trigger] d.clip_data@[k].content@,
                seq!['\u{1F5BC}', '\u{FE0F}'],
            )) ==> after == d && e is ReportNoImage,
{
    law_latest_image_is_last_marked(d.clip_data@);
    let k = latest_image(d.clip_data@);
    if k >= 0 {
        assert(contains_seq(d.clip_data@[k].content@, seq!['\u{1F5BC}', '\u{FE0F}']));
    }
}

/// An image put into the decoder input as the base64 text of some bytes is
/// saved as exactly those bytes, into the chosen directory.
pub proof fn law_decode_image_saves_encoded_bytes(d: Display, x: Seq<u8>, after: Display, e: Effect)
    requires
        d.image_decode_input@ == b64_encode(x),
        transition(d, Messages::DecodeImage, after, e),
    ensures
        after == d,
        e matches Effect::SaveDecodedImage { dir, bytes } && bytes@ == x && dir@
            == d.custom_save_dir@,
{
    assert(decodable(d.image_decode_input@));
    if let Effect::SaveDecodedImage { dir, bytes } = e {
        law_base64_injective(bytes@, x);
    }
}

/// A history item that carries the base64 text of some bytes downloads as
/// exactly those bytes.
pub proof fn law_download_saves_encoded_bytes(
    d: Display,
    item: ClipboardItem,
    x: Seq<u8>,
    after: Display,
    e: Effect,
)
    requires
        item.encoded_data matches Some(enc) && enc@ == b64_encode(x),
        transition(d, Messages::DownloadFile(item), after, e),
    ensures
        after == d,
        e matches Effect::SaveDownload { dir, file_name, bytes } && bytes@ == x && dir@
            == d.custom_save_dir@ && opt_view(file_name) == download_name(item.file_path),
{
    let enc = item.encoded_data->0;
    assert(decodable(enc@));
    if let Effect::SaveDownload { dir, file_name, bytes } = e {
        law_base64_injective(bytes@, x);
    }
}

} // verus!
