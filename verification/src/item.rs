use vstd::prelude::*;
use vstd::string::StrSliceExecFns;
use vstd::string::StringExecFns;

verus! {

/// One entry of a directory listing, as the traversal collaborator hands
/// it in: a file with its size in kilobytes, or a directory. The path is
/// forward-slash-delimited; its last segment is the display name.
pub enum DirectoryItem {
    File { path: String, size_kb: u64 },
    Directory { path: String },
}

/// The mathematical model of a [`DirectoryItem`].
pub enum ItemModel {
    File { path: Seq<char>, size_kb: u64 },
    Directory { path: Seq<char> },
}

impl View for DirectoryItem {
    type V = ItemModel;

    open spec fn view(&self) -> ItemModel {
        match self {
            DirectoryItem::File { path, size_kb } => ItemModel::File {
                path: path@,
                size_kb: *size_kb,
            },
            DirectoryItem::Directory { path } => ItemModel::Directory { path: path@ },
        }
    }
}

/// A formatted, frame-local representation of one directory item, ready
/// for rendering: a name label, a size label, and whether the entry is
/// the current selection and is to be drawn emphasized.
#[derive(Clone, Debug)]
pub struct DisplayEntry {
    pub label: String,
    pub size_label: String,
    pub emphasized: bool,
}

/// The mathematical model of a [`DisplayEntry`].
pub struct EntryModel {
    pub label: Seq<char>,
    pub size_label: Seq<char>,
    pub emphasized: bool,
}

impl View for DisplayEntry {
    type V = EntryModel;

    open spec fn view(&self) -> EntryModel {
        EntryModel { label: self.label@, size_label: self.size_label@, emphasized: self.emphasized }
    }
}

impl DisplayEntry {
    /// A copy of the entry with the same labels and emphasis.
    pub fn duplicate(&self) -> (r: DisplayEntry)
        ensures
            r@ == self@,
    {
        DisplayEntry {
            label: self.label.clone(),
            size_label: self.size_label.clone(),
            emphasized: self.emphasized,
        }
    }
}

/// The models of a sequence of display entries.
pub open spec fn models_of(entries: Seq<DisplayEntry>) -> Seq<EntryModel> {
    entries.map_values(|e: DisplayEntry| e@)
}

/// The substring after the final `/` of `path`; the whole of `path` when
/// it holds no `/`. An empty path or one ending in `/` gives the empty
/// segment.
pub open spec fn last_segment_of(path: Seq<char>) -> Seq<char>
    decreases path.len(),
{
    if path.len() == 0 {
        path
    } else if path.last() == '/' {
        Seq::empty()
    } else {
        last_segment_of(path.drop_last()).push(path.last())
    }
}

/// The character for one decimal digit.
pub open spec fn digit_char(d: int) -> char
    recommends
        0 <= d < 10,
{
    if d == 0 {
        '0'
    } else if d == 1 {
        '1'
    } else if d == 2 {
        '2'
    } else if d == 3 {
        '3'
    } else if d == 4 {
        '4'
    } else if d == 5 {
        '5'
    } else if d == 6 {
        '6'
    } else if d == 7 {
        '7'
    } else if d == 8 {
        '8'
    } else {
        '9'
    }
}

/// The decimal rendering of a non-negative integer, most significant
/// digit first, with no leading zeros (zero itself renders as `0`).
pub open spec fn decimal_of(n: int) -> Seq<char>
    recommends
        n >= 0,
    decreases n,
{
    if n < 10 {
        seq![digit_char(n)]
    } else {
        decimal_of(n / 10).push(digit_char(n % 10))
    }
}

/// The label of a file entry: the file icon, a space, then the last path
/// segment.
pub open spec fn file_label_of(path: Seq<char>) -> Seq<char> {
    "📄 "@ + last_segment_of(path)
}

/// The label of a directory entry: the folder icon, a space, then the
/// last path segment.
pub open spec fn dir_label_of(path: Seq<char>) -> Seq<char> {
    "📁 "@ + last_segment_of(path)
}

/// The size label of a file entry: its size in kilobytes, in decimal,
/// followed by `KB`.
pub open spec fn size_label_of(size_kb: u64) -> Seq<char> {
    decimal_of(size_kb as int) + "KB"@
}

/// What formatting one directory item yields: the labels per entry kind,
/// not yet emphasized.
pub open spec fn entry_model_of(item: ItemModel) -> EntryModel {
    match item {
        ItemModel::File { path, size_kb } => EntryModel {
            label: file_label_of(path),
            size_label: size_label_of(size_kb),
            emphasized: false,
        },
        ItemModel::Directory { path } => EntryModel {
            label: dir_label_of(path),
            size_label: Seq::empty(),
            emphasized: false,
        },
    }
}

/// A suffix of `s` that starts right after a `/`, or at the start, and
/// holds no further `/`, is the last segment of `s`.
proof fn lemma_last_segment_suffix(s: Seq<char>, start: int)
    requires
        0 <= start <= s.len(),
        forall|j: int| start <= j < s.len() ==> s[j] != '/',
        start > 0 ==> s[start - 1] == '/',
    ensures
        last_segment_of(s) == s.subrange(start, s.len() as int),
    decreases s.len(),
{
    if s.len() == 0 {
        assert(last_segment_of(s) =~= s.subrange(start, s.len() as int));
    } else if start == s.len() {
        assert(s.last() == '/');
        assert(last_segment_of(s) =~= s.subrange(start, s.len() as int));
    } else {
        assert(s.last() != '/');
        lemma_last_segment_suffix(s.drop_last(), start);
        assert(s.drop_last().subrange(start, s.len() - 1) == s.subrange(start, s.len() - 1));
        assert(last_segment_of(s) =~= s.subrange(start, s.len() as int));
    }
}

/// Extracts the last `/`-separated segment of `path`.
pub fn last_segment(path: &str) -> (r: String)
    ensures
        r@ == last_segment_of(path@),
{
    let n = path.unicode_len();
    let mut start: usize = 0;
    let mut i: usize = 0;
    while i < n
        invariant
            n == path@.len(),
            0 <= start <= i <= n,
            forall|j: int| start <= j < i ==> path@[j] != '/',
            start > 0 ==> path@[start - 1] == '/',
        decreases n - i,
    {
        if path.get_char(i) == '/' {
            start = i + 1;
        }
        i += 1;
    }
    proof {
        lemma_last_segment_suffix(path@, start as int);
    }
    let segment = path.substring_char(start, n);
    segment.to_owned()
}

/// The string for one decimal digit.
fn digit_str(d: u64) -> (r: &'static str)
    requires
        d < 10,
    ensures
        r@ == seq![digit_char(d as int)],
{
    if d == 0 {
        proof {
            reveal_strlit("0");
            assert("0"@ =~= seq![digit_char(0)]);
        }
        "0"
    } else if d == 1 {
        proof {
            reveal_strlit("1");
            assert("1"@ =~= seq![digit_char(1)]);
        }
        "1"
    } else if d == 2 {
        proof {
            reveal_strlit("2");
            assert("2"@ =~= seq![digit_char(2)]);
        }
        "2"
    } else if d == 3 {
        proof {
            reveal_strlit("3");
            assert("3"@ =~= seq![digit_char(3)]);
        }
        "3"
    } else if d == 4 {
        proof {
            reveal_strlit("4");
            assert("4"@ =~= seq![digit_char(4)]);
        }
        "4"
    } else if d == 5 {
        proof {
            reveal_strlit("5");
            assert("5"@ =~= seq![digit_char(5)]);
        }
        "5"
    } else if d == 6 {
        proof {
            reveal_strlit("6");
            assert("6"@ =~= seq![digit_char(6)]);
        }
        "6"
    } else if d == 7 {
        proof {
            reveal_strlit("7");
            assert("7"@ =~= seq![digit_char(7)]);
        }
        "7"
    } else if d == 8 {
        proof {
            reveal_strlit("8");
            assert("8"@ =~= seq![digit_char(8)]);
        }
        "8"
    } else {
        proof {
            reveal_strlit("9");
            assert("9"@ =~= seq![digit_char(9)]);
        }
        "9"
    }
}

/// Renders a number in decimal, most significant digit first.
pub fn u64_to_decimal(n: u64) -> (r: String)
    ensures
        r@ == decimal_of(n as int),
    decreases n,
{
    if n < 10 {
        digit_str(n).to_owned()
    } else {
        let mut prefix = u64_to_decimal(n / 10);
        prefix.append(digit_str(n % 10));
        proof {
            assert(prefix@ =~= decimal_of(n as int));
        }
        prefix
    }
}

/// Formats one directory item into its display entry: icon-prefixed name
/// label and, for a file, a `{size}KB` size label. Never emphasized.
pub fn format_item(item: &DirectoryItem) -> (r: DisplayEntry)
    ensures
        r@ == entry_model_of(item@),
{
    match item {
        DirectoryItem::File { path, size_kb } => {
            let mut label = String::from_str("📄 ");
            label.append(last_segment(path.as_str()).as_str());
            let mut size_label = u64_to_decimal(*size_kb);
            size_label.append("KB");
            DisplayEntry { label, size_label, emphasized: false }
        },
        DirectoryItem::Directory { path } => {
            let mut label = String::from_str("📁 ");
            label.append(last_segment(path.as_str()).as_str());
            DisplayEntry { label, size_label: String::new(), emphasized: false }
        },
    }
}

/// Formats a directory listing into display entries, one per item, in the
/// input order.
pub fn format_items(items: &Vec<DirectoryItem>) -> (r: Vec<DisplayEntry>)
    ensures
        r@.len() == items@.len(),
        forall|i: int| 0 <= i < items@.len() ==> r@[i]@ == entry_model_of(items@[i]@),
{
    let mut out: Vec<DisplayEntry> = Vec::new();
    let mut i: usize = 0;
    while i < items.len()
        invariant
            0 <= i <= items@.len(),
            out@.len() == i,
            forall|j: int| 0 <= j < i ==> out@[j]@ == entry_model_of(items@[j]@),
        decreases items@.len() - i,
    {
        out.push(format_item(&items[i]));
        i += 1;
    }
    out
}

/// Law: formatting a file item yields a label that ends in the path's
/// last `/`-segment, prefixed by the file icon and a space, and a size
/// label that is exactly the decimal size followed by `KB`.
pub proof fn lemma_file_format(path: Seq<char>, size_kb: u64)
    ensures
        ({
            let m = entry_model_of(ItemModel::File { path, size_kb });
            let segment = last_segment_of(path);
            &&& m.label.len() == "📄 "@.len() + segment.len()
            &&& m.label.skip(m.label.len() - segment.len()) == segment
            &&& m.label.take("📄 "@.len() as int) == "📄 "@
            &&& m.size_label == decimal_of(size_kb as int) + "KB"@
        }),
{
    let m = entry_model_of(ItemModel::File { path, size_kb });
    let segment = last_segment_of(path);
    assert(m.label.skip(m.label.len() - segment.len()) =~= segment);
    assert(m.label.take("📄 "@.len() as int) =~= "📄 "@);
}

} // verus!
