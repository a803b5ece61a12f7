//! The pages of the settings dialog and which one it shows when it opens.

use vstd::prelude::*;

verus! {

/// A page of the settings dialog; shortcuts have a surface of their own.
#[derive(Clone, Copy, Debug, PartialEq, Eq, Structural)]
pub enum SettingsPage {
    Appearance,
    Server,
    About,
}

/// The settings pages in the order they are shown, after the optional "General" page.
pub open spec fn settings_pages() -> Seq<SettingsPage> {
    seq![SettingsPage::Appearance, SettingsPage::Server, SettingsPage::About]
}

/// The settings pages, in render order.
pub fn settings_page_list() -> (r: Vec<SettingsPage>)
    ensures
        r@ == settings_pages(),
{
    let r = vec![SettingsPage::Appearance, SettingsPage::Server, SettingsPage::About];
    assert(r@ =~= settings_pages());
    r
}

/// The title of each page.
pub open spec fn page_title(page: SettingsPage) -> Seq<char> {
    match page {
        SettingsPage::Appearance => "Appearance"@,
        SettingsPage::Server => "Local Server"@,
        SettingsPage::About => "About"@,
    }
}

impl SettingsPage {
    /// The title shown for the page.
    pub fn title(self) -> (r: &'static str)
        ensures
            r@ == page_title(self),
    {
        match self {
            SettingsPage::Appearance => "Appearance",
            SettingsPage::Server => "Local Server",
            SettingsPage::About => "About",
        }
    }
}

/// The index of the first occurrence of `page` in `pages`, or 0 when it is missing.
pub open spec fn position_or_first(pages: Seq<SettingsPage>, page: SettingsPage) -> int {
    if exists|i: int| 0 <= i < pages.len() && pages[i] == page {
        choose|i: int|
            0 <= i < pages.len() && pages[i] == page && forall|j: int| 0 <= j < i ==> pages[j]
                != page
    } else {
        0
    }
}

/// Where `page` stands among `pages`: its first index, or 0 when it is not there.
pub fn page_index(pages: &Vec<SettingsPage>, page: SettingsPage) -> (r: usize)
    ensures
        r == position_or_first(pages@, page),
{
    let mut i: usize = 0;
    while i < pages.len()
        invariant
            i <= pages@.len(),
            forall|j: int| 0 <= j < i ==> pages@[j] != page,
        decreases pages.len() - i,
    {
        if pages[i] == page {
            assert(forall|j: int| 0 <= j < i ==> pages@[j] != page);
            assert(0 <= i < pages@.len() && pages@[i as int] == page);
            let ghost c = choose|k: int|
                0 <= k < pages@.len() && pages@[k] == page && forall|j: int| 0 <= j < k ==> pages@[j]
                    != page;
            assert(c == i) by {
                if c < i {
                    assert(pages@[c] != page);
                }
                if c > i {
                    assert(pages@[i as int] != page);
                }
            }
            return i;
        }
        i = i + 1;
    }
    0
}

/// The index of the About page among the settings pages.
pub fn about_page_index() -> (r: usize)
    ensures
        r == position_or_first(settings_pages(), SettingsPage::About),
        r == 2,
{
    let pages = settings_page_list();
    let r = page_index(&pages, SettingsPage::About);
    assert(settings_pages()[2] == SettingsPage::About);
    assert(r == 2) by {
        assert(exists|i: int|
            0 <= i < settings_pages().len() && settings_pages()[i] == SettingsPage::About);
        assert(settings_pages()[0] != SettingsPage::About);
        assert(settings_pages()[1] != SettingsPage::About);
    }
    r
}

/// The titles of the pages the dialog shows, in order: "General" first when an updater
/// is present, then the settings pages.
pub open spec fn shown_titles(has_updater: bool) -> Seq<Seq<char>> {
    let pages = settings_pages().map_values(|p: SettingsPage| page_title(p));
    if has_updater {
        seq!["General"@] + pages
    } else {
        pages
    }
}

/// The titles of the pages the dialog shows, in order.
pub fn shown_page_titles(has_updater: bool) -> (r: Vec<&'static str>)
    ensures
        r@.len() == shown_titles(has_updater).len(),
        forall|i: int| 0 <= i < r@.len() ==> r@[i]@ == shown_titles(has_updater)[i],
{
    let mut r: Vec<&'static str> = Vec::new();
    if has_updater {
        r.push("General");
    }
    let pages = settings_page_list();
    let ghost offset: int = if has_updater {
        1
    } else {
        0
    };
    let mut i: usize = 0;
    while i < pages.len()
        invariant
            i <= pages@.len(),
            pages@ == settings_pages(),
            offset == (if has_updater {
                1int
            } else {
                0int
            }),
            r@.len() == offset + i,
            forall|j: int| 0 <= j < r@.len() ==> r@[j]@ == shown_titles(has_updater)[j],
        decreases pages.len() - i,
    {
        let t = pages[i].title();
        r.push(t);
        i = i + 1;
    }
    r
}

/// Which page the settings dialog shows, and whether it is open.
pub struct SettingsNav {
    pub open: bool,
    pub page_index: usize,
    pub has_updater: bool,
}

impl SettingsNav {
    /// A closed dialog on its first page.
    pub fn new(has_updater: bool) -> (r: SettingsNav)
        ensures
            !r.open,
            r.page_index == 0,
            r.has_updater == has_updater,
    {
        SettingsNav { open: false, page_index: 0, has_updater }
    }

    /// Opens the dialog on its first page.
    pub fn open(&mut self)
        ensures
            final(self).open,
            final(self).page_index == 0,
            final(self).has_updater == old(self).has_updater,
    {
        self.open = true;
        self.page_index = 0;
    }

    /// Opens the dialog on the About page, which moves down by one when the "General"
    /// page is shown before it.
    pub fn open_about(&mut self)
        ensures
            final(self).open,
            final(self).page_index == position_or_first(settings_pages(), SettingsPage::About)
                + if old(self).has_updater {
                1int
            } else {
                0int
            },
            final(self).has_updater == old(self).has_updater,
    {
        self.open = true;
        let about = about_page_index();
        self.page_index = if self.has_updater {
            about + 1
        } else {
            about
        };
    }

    /// Closes the dialog; the page it showed is kept.
    pub fn close(&mut self)
        ensures
            !final(self).open,
            final(self).page_index == old(self).page_index,
            final(self).has_updater == old(self).has_updater,
    {
        self.open = false;
    }
}

/// Opening on the About page shows the page titled "About".
pub proof fn law_open_about_shows_the_about_page(has_updater: bool)
    ensures
        ({
            let index = position_or_first(settings_pages(), SettingsPage::About) + if has_updater {
                1int
            } else {
                0int
            };
            0 <= index < shown_titles(has_updater).len() && shown_titles(has_updater)[index]
                == "About"@
        }),
{
    let about = position_or_first(settings_pages(), SettingsPage::About);
    assert(settings_pages()[2] == SettingsPage::About);
    assert(about == 2) by {
        assert(settings_pages()[0] != SettingsPage::About);
        assert(settings_pages()[1] != SettingsPage::About);
    }
    let index = about + if has_updater {
        1int
    } else {
        0int
    };
    assert(0 <= index < shown_titles(has_updater).len());
    assert(shown_titles(has_updater)[index] == "About"@);
}


/// The release channel a build belongs to.
#[derive(Clone, Copy, Debug, PartialEq, Eq, Structural)]
pub enum Channel {
    Stable,
    Preview,
    Dev,
}

/// The description of the automatic-updates switch on the "General" page: preview builds
/// are offered release candidates only.
pub fn updates_description(channel: Channel) -> (r: &'static str)
    ensures
        r@ == (if channel == Channel::Preview {
            "Periodically check for and download release candidates. Stable releases are not offered."@
        } else {
            "Periodically check for and download updates in the background."@
        }),
{
    if channel == Channel::Preview {
        "Periodically check for and download release candidates. Stable releases are not offered."
    } else {
        "Periodically check for and download updates in the background."
    }
}

/// The label of the automatic-updates switch: `Automatically update <product>`.
pub fn updates_label(product: &str) -> (r: String)
    ensures
        r@ == "Automatically update "@ + product@,
{
    let mut r = crate::text::string_of("Automatically update ");
    crate::text::push_str(&mut r, product);
    r
}

/// The colour of the About page's mark, as `0xRRGGBB`, for the channels that have their
/// own: amber for preview builds, green for development builds; stable builds use the
/// theme's primary colour.
pub fn about_logo_rgb(channel: Channel) -> (r: Option<u32>)
    ensures
        r == (match channel {
            Channel::Stable => None,
            Channel::Preview => Some(0xe8b920u32),
            Channel::Dev => Some(0x30ba78u32),
        }),
{
    match channel {
        Channel::Stable => None,
        Channel::Preview => Some(0xe8b920),
        Channel::Dev => Some(0x30ba78),
    }
}
} // verus!
