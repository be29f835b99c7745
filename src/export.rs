use vstd::prelude::*;
use vstd::string::*;

verus! {

/// One exported file: its path relative to the root, with `/` separators,
/// and its full text.
pub struct FileEntry {
    location: String,
    content: String,
}

impl View for FileEntry {
    type V = (Seq<char>, Seq<char>);

    closed spec fn view(&self) -> (Seq<char>, Seq<char>) {
        (self.location@, self.content@)
    }
}

impl FileEntry {
    pub fn new(location: String, content: String) -> (r: FileEntry)
        ensures
            r@ == (location@, content@),
    {
        FileEntry { location, content }
    }

    pub fn location(&self) -> (r: &str)
        ensures
            r@ == self@.0,
    {
        self.location.as_str()
    }

    pub fn content(&self) -> (r: &str)
        ensures
            r@ == self@.1,
    {
        self.content.as_str()
    }
}

/// The (location, content) pairs of a list of entries.
pub open spec fn entries_view(entries: Seq<FileEntry>) -> Seq<(Seq<char>, Seq<char>)> {
    entries.map_values(|e: FileEntry| e@)
}

/// Pairs each location with the content at the same index.
pub fn build_file_entries(locations: Vec<String>, contents: Vec<String>) -> (r: Vec<FileEntry>)
    requires
        locations.len() == contents.len(),
    ensures
        r.len() == locations.len(),
        forall|i: int| 0 <= i < r.len() ==> #[trigger] r[i]@ == (locations[i]@, contents[i]@),
{
    let mut entries: Vec<FileEntry> = Vec::new();
    for i in 0..locations.len()
        invariant
            locations.len() == contents.len(),
            entries.len() == i,
            forall|j: int|
                0 <= j < i ==> #[trigger] entries[j]@ == (locations[j]@, contents[j]@),
    {
        entries.push(FileEntry::new(locations[i].clone(), contents[i].clone()));
    }
    entries
}

/// The Markdown section of one file: a second-level heading naming it, then
/// its content, then a newline.
pub open spec fn markdown_section(location: Seq<char>, content: Seq<char>) -> Seq<char> {
    "## "@ + location + "\n"@ + content + "\n"@
}

/// The sections of all entries, in order, with nothing around them.
pub open spec fn markdown_document(entries: Seq<(Seq<char>, Seq<char>)>) -> Seq<char>
    decreases entries.len(),
{
    if entries.len() == 0 {
        Seq::empty()
    } else {
        markdown_document(entries.drop_last()) + markdown_section(
            entries.last().0,
            entries.last().1,
        )
    }
}

/// Renders the entries as one Markdown document: for each entry in order,
/// `## <location>`, a newline, the content and a newline.
pub fn create_markdown_output(entries: &Vec<FileEntry>) -> (r: String)
    ensures
        r@ == markdown_document(entries_view(entries@)),
{
    let ghost ev = entries_view(entries@);
    let mut out = String::new();
    for i in 0..entries.len()
        invariant
            ev == entries_view(entries@),
            out@ == markdown_document(ev.take(i as int)),
    {
        let entry = &entries[i];
        out.append("## ");
        out.append(entry.location.as_str());
        out.append("\n");
        out.append(entry.content.as_str());
        out.append("\n");
        assert(ev.take(i + 1).drop_last() =~= ev.take(i as int));
        assert(ev[i as int] == entry@);
    }
    assert(ev.take(entries.len() as int) =~= ev);
    out
}

/// The lowercase hexadecimal digit of a value below 16.
pub open spec fn hex_digit(n: int) -> char {
    seq!['0', '1', '2', '3', '4', '5', '6', '7', '8', '9', 'a', 'b', 'c', 'd', 'e', 'f'][n]
}

/// How one character is written inside a JSON string: `"` and `\` after a
/// backslash, backspace, tab, line feed, form feed and carriage return as
/// `\b`, `\t`, `\n`, `\f`, `\r`, other characters below U+0020 as `\u00`
/// and two lowercase hexadecimal digits, and every other character as itself.
pub open spec fn json_char_escape(c: char) -> Seq<char> {
    if c == '"' {
        seq!['\\', '"']
    } else if c == '\\' {
        seq!['\\', '\\']
    } else if c == '\u{8}' {
        seq!['\\', 'b']
    } else if c == '\t' {
        seq!['\\', 't']
    } else if c == '\n' {
        seq!['\\', 'n']
    } else if c == '\u{c}' {
        seq!['\\', 'f']
    } else if c == '\r' {
        seq!['\\', 'r']
    } else if (c as u32) < 0x20 {
        seq!['\\', 'u', '0', '0', hex_digit(((c as u32) / 16) as int), hex_digit(((c as u32) % 16) as int)]
    } else {
        seq![c]
    }
}

/// The characters of a text, each written as `json_char_escape` says.
pub open spec fn json_escaped(s: Seq<char>) -> Seq<char>
    decreases s.len(),
{
    if s.len() == 0 {
        Seq::empty()
    } else {
        json_char_escape(s[0]) + json_escaped(s.drop_first())
    }
}

/// The JSON string literal of a text: its escaped characters between quotes.
pub open spec fn json_string_literal(s: Seq<char>) -> Seq<char> {
    seq!['"'] + json_escaped(s) + seq!['"']
}

/// Relies on `serde_json::to_string` on a `str`: it writes the text between
/// quotes, escaped as `json_char_escape` says (its `format_escaped_str`),
/// into a `Vec`, which cannot fail.
#[verifier::external_body]
fn quote_json(s: &str) -> (r: String)
    ensures
        r@ == json_string_literal(s@),
{
    serde_json::to_string(s).unwrap_or_default()
}

/// The JSON object of one file, from its location and content already
/// written as JSON string literals.
pub open spec fn json_object(quoted_location: Seq<char>, quoted_content: Seq<char>) -> Seq<char> {
    "{\"location\":"@ + quoted_location + ",\"content\":"@ + quoted_content + "}"@
}

/// The objects of all pairs, in order, separated by commas.
pub open spec fn json_elements(quoted: Seq<(Seq<char>, Seq<char>)>) -> Seq<char>
    decreases quoted.len(),
{
    if quoted.len() == 0 {
        Seq::empty()
    } else {
        let last = json_object(quoted.last().0, quoted.last().1);
        if quoted.len() == 1 {
            last
        } else {
            json_elements(quoted.drop_last()) + ","@ + last
        }
    }
}

/// A JSON array of objects, from pairs already written as string literals.
pub open spec fn json_document(quoted: Seq<(Seq<char>, Seq<char>)>) -> Seq<char> {
    "["@ + json_elements(quoted) + "]"@
}

/// The JSON array of the entries: one object with the fields `location` and
/// `content` per entry, in order, with no whitespace.
pub open spec fn json_export(entries: Seq<(Seq<char>, Seq<char>)>) -> Seq<char> {
    json_document(
        entries.map_values(
            |e: (Seq<char>, Seq<char>)| (json_string_literal(e.0), json_string_literal(e.1)),
        ),
    )
}

/// Frames a JSON array from locations and contents that are already JSON
/// string literals: `[{"location":<l>,"content":<c>},...]`.
pub fn json_from_quoted(quoted_locations: &Vec<String>, quoted_contents: &Vec<String>) -> (r:
    String)
    requires
        quoted_locations.len() == quoted_contents.len(),
    ensures
        r@ == json_document(
            Seq::new(
                quoted_locations.len() as nat,
                |i: int| (quoted_locations[i]@, quoted_contents[i]@),
            ),
        ),
{
    let ghost q = Seq::new(
        quoted_locations.len() as nat,
        |i: int| (quoted_locations[i]@, quoted_contents[i]@),
    );
    let mut out = String::new();
    out.append("[");
    for i in 0..quoted_locations.len()
        invariant
            quoted_locations.len() == quoted_contents.len(),
            q == Seq::new(
                quoted_locations.len() as nat,
                |i: int| (quoted_locations[i]@, quoted_contents[i]@),
            ),
            out@ == "["@ + json_elements(q.take(i as int)),
    {
        if i > 0 {
            out.append(",");
        }
        out.append("{\"location\":");
        out.append(quoted_locations[i].as_str());
        out.append(",\"content\":");
        out.append(quoted_contents[i].as_str());
        out.append("}");
        assert(q.take(i + 1).drop_last() =~= q.take(i as int));
    }
    assert(q.take(quoted_locations.len() as int) =~= q);
    out.append("]");
    out
}

/// Renders the entries as one JSON array (see `json_export`).
pub fn create_json_output(entries: &Vec<FileEntry>) -> (r: String)
    ensures
        r@ == json_export(entries_view(entries@)),
{
    let ghost ev = entries_view(entries@);
    let mut locations: Vec<String> = Vec::new();
    let mut contents: Vec<String> = Vec::new();
    for i in 0..entries.len()
        invariant
            ev == entries_view(entries@),
            locations.len() == i,
            contents.len() == i,
            forall|j: int|
                0 <= j < i ==> #[trigger] locations[j]@ == json_string_literal(ev[j].0),
            forall|j: int| 0 <= j < i ==> #[trigger] contents[j]@ == json_string_literal(ev[j].1),
    {
        let entry = &entries[i];
        assert(ev[i as int] == entry@);
        locations.push(quote_json(entry.location.as_str()));
        contents.push(quote_json(entry.content.as_str()));
    }
    let doc = json_from_quoted(&locations, &contents);
    assert(Seq::new(locations.len() as nat, |i: int| (locations[i]@, contents[i]@))
        =~= ev.map_values(
        |e: (Seq<char>, Seq<char>)| (json_string_literal(e.0), json_string_literal(e.1)),
    ));
    doc
}

} // verus!
