//! The provenance of a mod, written into the mod itself: one entry of the
//! archive holds lines of the form `key: value`, among them the provider the
//! mod came from and the repository it came from.

use crate::archive::{
    archive_entries, closes, container_entries, entry_bytes, entry_bytes_by_name, entry_count,
    entry_name, names, open, starts, string_from_utf8, takes, unpacked, writer_entries,
    writer_finish, writer_new, writer_sound, writer_start_file, writer_write_all, written_names,
    DEFLATED, NAME_LIMIT,
};
use crate::cli::Source;
use crate::text::{
    chars_eq, copy_range, find_char, find_from, folded, from_chars, lemma_find_char_is,
    lemma_trimmed_keeps, lines, lines_of, strip_cr, to_chars, views,
};
use vstd::prelude::*;
use vstd::utf8::{decode_utf8, encode_utf8, valid_utf8};

verus! {

/// The functions that write and read the provenance of a mod stand on this type.
pub struct Metadata;

/// Why the provenance of a mod could not be written or read.
#[derive(Debug)]
pub enum Error {
    /// Bytes could not be read or written.
    IOErr(std::io::Error),
    /// The mod is no archive, the archive has no such entry, or an entry
    /// cannot be written.
    Unzip(zip::result::ZipError),
    /// The entry is not text.
    ParseErr(std::string::FromUtf8Error),
    /// No line has the key.
    NoKeyFound,
    /// The entry does not have the form expected.
    SerdeErr(String),
    /// An entry of the mod has a name too long to be written again.
    LongName(String),
}

/// The name of the entry that holds the provenance.
pub open spec fn tag_name() -> Seq<char> {
    "META-INF/MODDER-RS.MF"@
}

/// The key under which the repository stands.
pub open spec fn reference_key() -> Seq<char> {
    "repo"@
}

/// The text of the entry: the provider first, the key and its value next.
pub open spec fn rendered(source: Source, key: Seq<char>, value: Seq<char>) -> Seq<char> {
    "source: "@ + source.name() + "\n"@ + key + ": "@ + value
}

/// The entries of a container after the provenance was added: those it had,
/// as they were, and the new entry after them, packed by deflation.
pub open spec fn stamped(
    entries: Seq<(Seq<char>, u16, Option<Seq<u8>>)>,
    source: Source,
    key: Seq<char>,
    value: Seq<char>,
) -> Seq<(Seq<char>, u16, Option<Seq<u8>>)> {
    entries.push((tag_name(), DEFLATED, Some(encode_utf8(rendered(source, key, value)))))
}

/// The entries as they are handed to the writer: name, method and bytes.
pub open spec fn plain(entries: Seq<(Seq<char>, u16, Option<Seq<u8>>)>) -> Seq<
    (Seq<char>, u16, Seq<u8>),
> {
    entries.map_values(
        |e: (Seq<char>, u16, Option<Seq<u8>>)|
            (
                e.0,
                e.1,
                match e.2 {
                    Some(bytes) => bytes,
                    None => Seq::empty(),
                },
            ),
    )
}

/// Whether the writer takes entry `i` of `written` after the entries before
/// it: its name and method first, then its bytes.
pub open spec fn step_ok(written: Seq<(Seq<char>, u16, Seq<u8>)>, i: int) -> bool {
    &&& starts(written.take(i), written[i].0, written[i].1)
    &&& takes(written.take(i).push((written[i].0, written[i].1, Seq::empty())), written[i].2)
}

/// Whether the writer takes these entries one after the other and closes
/// the container.
pub open spec fn writable(written: Seq<(Seq<char>, u16, Seq<u8>)>) -> bool {
    &&& forall|i: int| 0 <= i < written.len() ==> #[trigger] step_ok(written, i)
    &&& closes(written)
}

/// Whether a mod can be stamped: each of its entries can be unpacked and
/// has a name that can be written again, and the writer takes them and the
/// new entry.
pub open spec fn can_stamp(
    entries: Seq<(Seq<char>, u16, Option<Seq<u8>>)>,
    source: Source,
    key: Seq<char>,
    value: Seq<char>,
) -> bool {
    &&& forall|i: int| 0 <= i < entries.len() ==> (#[trigger] entries[i]).2 is Some
    &&& forall|i: int|
        0 <= i < entries.len() ==> encode_utf8((#[trigger] entries[i]).0).len() <= NAME_LIMIT
    &&& writable(plain(stamped(entries, source, key, value)))
}

/// The bytes of the provenance entry, where the container has one: `None`
/// inside where the entry is there and cannot be unpacked.
pub open spec fn tag_of(entries: Seq<(Seq<char>, u16, Option<Seq<u8>>)>) -> Option<
    Option<Seq<u8>>,
> {
    if names(entries).contains(tag_name()) {
        Some(entries[names(entries).index_of(tag_name())].2)
    } else {
        None
    }
}

/// What follows the colon of a line, without the one space that parts it
/// from the key.
pub open spec fn value_after(rest: Seq<char>) -> Seq<char> {
    if rest.len() > 0 && rest[0] == ' ' {
        rest.skip(1)
    } else {
        rest
    }
}

/// The key and the value of a line: the key is what stands before the
/// first colon, the value all that follows it, but for one space after the
/// colon. A line without a colon holds no pair.
pub open spec fn pair_of(line: Seq<char>) -> Option<(Seq<char>, Seq<char>)> {
    let at = find_char(line, ':') as int;
    if at < line.len() {
        Some((line.take(at), value_after(line.skip(at + 1))))
    } else {
        None
    }
}

/// The pairs of the first `n` lines, in order.
pub open spec fn pairs_of(lines: Seq<Seq<char>>, n: nat) -> Seq<(Seq<char>, Seq<char>)>
    decreases n,
{
    if n == 0 {
        Seq::empty()
    } else {
        let before = pairs_of(lines, (n - 1) as nat);
        match pair_of(lines[n - 1]) {
            Some(pair) => before.push(pair),
            None => before,
        }
    }
}

/// The pairs of a text, in the order of its lines.
pub open spec fn all_pairs(text: Seq<char>) -> Seq<(Seq<char>, Seq<char>)> {
    pairs_of(lines_of(text), lines_of(text).len())
}

/// The value that the last of the first `n` pairs with that key has.
pub open spec fn last_value(pairs: Seq<(Seq<char>, Seq<char>)>, key: Seq<char>, n: nat) -> Option<
    Seq<char>,
>
    decreases n,
{
    if n == 0 {
        None
    } else if pairs[n - 1].0 == key {
        Some(pairs[n - 1].1)
    } else {
        last_value(pairs, key, (n - 1) as nat)
    }
}

/// The value of a key among the pairs of a text: where the key comes twice,
/// the later line counts.
pub open spec fn value_of(text: Seq<char>, key: Seq<char>) -> Option<Seq<char>> {
    last_value(all_pairs(text), key, all_pairs(text).len())
}

/// The value of the first line, from line `from` on, whose key is `key`;
/// `None` where no line has that key.
pub open spec fn first_value(lines: Seq<Seq<char>>, key: Seq<char>, from: nat) -> Option<Seq<char>>
    decreases lines.len() - from,
{
    if from >= lines.len() {
        None
    } else {
        match pair_of(lines[from as int]) {
            Some((k, v)) => if k == key {
                Some(v)
            } else {
                first_value(lines, key, from + 1)
            },
            None => first_value(lines, key, from + 1),
        }
    }
}

/// The provider and the repository that a text of provenance names.
pub open spec fn stamp_of(text: Seq<char>) -> Option<(Source, Seq<char>)> {
    match value_of(text, "source"@) {
        Some(name) => match Source::named(name) {
            Some(provider) => match value_of(text, reference_key()) {
                Some(repo) => Some((provider, repo)),
                None => None,
            },
            None => None,
        },
        None => None,
    }
}

/// The provider and the repository that the entries of a container name.
pub open spec fn stamp_in(entries: Seq<(Seq<char>, u16, Option<Seq<u8>>)>) -> Option<
    (Source, Seq<char>),
> {
    match tag_of(entries) {
        Some(Some(bytes)) => if valid_utf8(bytes) {
            stamp_of(decode_utf8(bytes))
        } else {
            None
        },
        _ => None,
    }
}

/// The bytes of the provenance entry of a container: `None` where the bytes
/// are no container or the container has no such entry, `None` inside
/// where the entry cannot be unpacked.
pub open spec fn tag_bytes(container: Seq<u8>) -> Option<Option<Seq<u8>>> {
    match container_entries(container) {
        Some(entries) => tag_of(entries),
        None => None,
    }
}

/// The text of the provenance entry of a container: there is one where the
/// entry is there, can be unpacked and is UTF-8.
pub open spec fn tag_text_of(container: Seq<u8>) -> Option<Seq<char>> {
    match tag_bytes(container) {
        Some(Some(bytes)) => if valid_utf8(bytes) {
            Some(decode_utf8(bytes))
        } else {
            None
        },
        _ => None,
    }
}

/// A container names a provider and a repository exactly where its
/// provenance entry has a text and the text names them.
pub proof fn lemma_stamp_at(container: Seq<u8>)
    ensures
        stamp_at(container) == match tag_text_of(container) {
            Some(text) => stamp_of(text),
            None => None,
        },
{
}

/// What the provenance entry of a container holds under `key`.
pub open spec fn kv_of(container: Seq<u8>, key: Seq<char>) -> Option<Seq<char>> {
    match tag_text_of(container) {
        Some(text) => first_value(lines_of(text), key, 0),
        None => None,
    }
}

/// The provider and the repository that a container names.
pub open spec fn stamp_at(container: Seq<u8>) -> Option<(Source, Seq<char>)> {
    match container_entries(container) {
        Some(entries) => stamp_in(entries),
        None => None,
    }
}

/// The views of the pairs, in order.
pub open spec fn pair_views(pairs: Seq<(String, String)>) -> Seq<(Seq<char>, Seq<char>)> {
    pairs.map_values(|p: (String, String)| (p.0@, p.1@))
}

/// Two lines with a line feed between them are read as those two lines.
pub proof fn lemma_lines_of_two(a: Seq<char>, b: Seq<char>)
    requires
        !a.contains('\n'),
        !b.contains('\n'),
        a.len() > 0 ==> a.last() != '\r',
        b.len() > 0,
    ensures
        lines_of(a + seq!['\n'] + b) == seq![a, b],
{
    let t = a + seq!['\n'] + b;
    assert forall|j: int| 0 <= j < a.len() implies t[j] != '\n' by {
        assert(a.contains(a[j]));
    }
    lemma_find_char_is(t, '\n', a.len() as int);
    assert(t.take(a.len() as int) =~= a);
    assert(t.skip(a.len() as int + 1) =~= b);
    assert forall|j: int| 0 <= j < b.len() implies b[j] != '\n' by {
        assert(b.contains(b[j]));
    }
    lemma_find_char_is(b, '\n', b.len() as int);
    assert(b.skip(b.len() as int) =~= Seq::<char>::empty());
    assert(lines_of(b) =~= seq![b]);
    assert(lines_of(t) =~= seq![a] + lines_of(b));
    assert(seq![a] + seq![b] =~= seq![a, b]);
}

/// A line made of a key without a colon, a colon, a space and a value is
/// read as that key and that value, whatever the value holds.
pub proof fn lemma_pair_of_line(key: Seq<char>, value: Seq<char>)
    requires
        !key.contains(':'),
    ensures
        pair_of(key + seq![':', ' '] + value) == Some((key, value)),
{
    let line = key + seq![':', ' '] + value;
    let rest = seq![' '] + value;
    assert forall|j: int| 0 <= j < key.len() implies line[j] != ':' by {
        assert(key.contains(key[j]));
    }
    lemma_find_char_is(line, ':', key.len() as int);
    assert(line.take(key.len() as int) =~= key);
    assert(line.skip(key.len() as int + 1) =~= rest);
    assert(rest.skip(1) =~= value);
}

/// The name of a provider is read back as that provider.
pub proof fn lemma_name_round_trip(provider: Source)
    ensures
        !provider.name().contains(':'),
        !provider.name().contains('\n'),
        provider.name().len() > 0,
        provider.name().last() != '\r',
        Source::named(provider.name()) == Some(provider),
{
    reveal_strlit("modrinth");
    reveal_strlit("github");
    reveal_strlit("curseforge");
    let name = provider.name();
    lemma_trimmed_keeps(name);
    assert(folded(name).len() == name.len());
    assert(folded("modrinth"@).len() == 8);
    assert(folded("github"@).len() == 6);
    assert(folded("curseforge"@).len() == 10);
}

/// The text that is written is read as two pairs: the provider under
/// `source`, and the value under its key, as it was given. This holds for
/// a key without colon or line feed and a value without line feed.
pub proof fn lemma_rendered_pairs(provider: Source, key: Seq<char>, value: Seq<char>)
    requires
        !key.contains(':'),
        !key.contains('\n'),
        !value.contains('\n'),
    ensures
        all_pairs(rendered(provider, key, value)) == seq![
            ("source"@, provider.name()),
            (key, value),
        ],
        lines_of(rendered(provider, key, value)).len() == 2,
        pair_of(lines_of(rendered(provider, key, value))[0]) == Some(("source"@, provider.name())),
        pair_of(lines_of(rendered(provider, key, value))[1]) == Some((key, value)),
{
    let text = rendered(provider, key, value);
    reveal_strlit("source: ");
    reveal_strlit("source");
    reveal_strlit("\n");
    reveal_strlit(": ");
    lemma_name_round_trip(provider);
    let name = provider.name();
    let first = "source"@ + seq![':', ' '] + name;
    let second = key + seq![':', ' '] + value;
    assert(text =~= first + seq!['\n'] + second);
    assert(!first.contains('\n')) by {
        if first.contains('\n') {
            let j = choose|j: int| 0 <= j < first.len() && first[j] == '\n';
            if j >= 8 {
                assert(name.contains(name[j - 8]));
            }
        }
    }
    assert(!second.contains('\n')) by {
        if second.contains('\n') {
            let j = choose|j: int| 0 <= j < second.len() && second[j] == '\n';
            if j < key.len() {
                assert(key.contains(key[j]));
            } else if j >= key.len() + 2 {
                assert(value.contains(value[j - key.len() - 2]));
            }
        }
    }
    assert(first.last() == name.last());
    lemma_lines_of_two(first, second);
    assert(!"source"@.contains(':')) by {
        assert forall|j: int| 0 <= j < "source"@.len() implies "source"@[j] != ':' by {}
    }
    lemma_pair_of_line("source"@, name);
    lemma_pair_of_line(key, value);
    let lines = lines_of(text);
    assert(lines == seq![first, second]);
    reveal_with_fuel(pairs_of, 3);
    assert(pairs_of(lines, 2) =~= seq![("source"@, name), (key, value)]);
}

/// After a stamp the provenance entry is the one that was added, and its
/// text is the text that was written.
pub proof fn lemma_stamped_text(
    entries: Seq<(Seq<char>, u16, Option<Seq<u8>>)>,
    provider: Source,
    key: Seq<char>,
    value: Seq<char>,
)
    requires
        !names(entries).contains(tag_name()),
    ensures
        tag_of(stamped(entries, provider, key, value)) == Some(
            Some(encode_utf8(rendered(provider, key, value))),
        ),
        valid_utf8(encode_utf8(rendered(provider, key, value))),
        decode_utf8(encode_utf8(rendered(provider, key, value))) == rendered(provider, key, value),
        stamped(entries, provider, key, value).len() == entries.len() + 1,
        forall|i: int|
            0 <= i < entries.len() ==> stamped(entries, provider, key, value)[i] == entries[i],
{
    let text = rendered(provider, key, value);
    let after = stamped(entries, provider, key, value);
    assert(names(after) =~= names(entries).push(tag_name()));
    assert(names(after)[entries.len() as int] == tag_name());
    let at = names(after).index_of(tag_name());
    assert(at == entries.len()) by {
        if at < entries.len() {
            assert(names(entries)[at] == tag_name());
        }
    }
    vstd::utf8::encode_utf8_valid_utf8(text);
    vstd::utf8::encode_utf8_decode_utf8(text);
}

/// What was stamped is read back: the provider and the repository come back
/// as they were given, and every entry that the container had is there as it
/// was, with its name, its method and its bytes. This holds for a container
/// without a provenance entry and a repository that holds no line feed.
pub proof fn lemma_stamp_round_trip(
    entries: Seq<(Seq<char>, u16, Option<Seq<u8>>)>,
    provider: Source,
    repo: Seq<char>,
)
    requires
        !names(entries).contains(tag_name()),
        !repo.contains('\n'),
    ensures
        stamp_in(stamped(entries, provider, reference_key(), repo)) == Some((provider, repo)),
        stamped(entries, provider, reference_key(), repo).len() == entries.len() + 1,
        forall|i: int|
            0 <= i < entries.len() ==> stamped(entries, provider, reference_key(), repo)[i]
                == entries[i],
{
    let text = rendered(provider, reference_key(), repo);
    lemma_stamped_text(entries, provider, reference_key(), repo);
    reveal_strlit("repo");
    reveal_strlit("source");
    assert(!"repo"@.contains(':') && !"repo"@.contains('\n')) by {
        assert forall|j: int| 0 <= j < "repo"@.len() implies "repo"@[j] != ':' && "repo"@[j] != '\n' by {}
    }
    lemma_rendered_pairs(provider, reference_key(), repo);
    lemma_name_round_trip(provider);
    assert("source"@ != "repo"@) by {
        assert("source"@.len() != "repo"@.len());
    }
    reveal_with_fuel(last_value, 3);
    assert(value_of(text, "source"@) == Some(provider.name()));
    assert(value_of(text, reference_key()) == Some(repo));
}

/// What a stamped container gives back to each of the readers: the
/// provider under `source`, the value under its key exactly as it was
/// given, and these two pairs and no others. This holds for a container
/// that had no provenance entry, a key other than `source` without colon or
/// line feed, and a value without line feed.
pub proof fn lemma_stamped_is_read_back(
    out: Seq<u8>,
    entries: Seq<(Seq<char>, u16, Option<Seq<u8>>)>,
    provider: Source,
    key: Seq<char>,
    value: Seq<char>,
)
    requires
        container_entries(out) == Some(stamped(entries, provider, key, value)),
        !names(entries).contains(tag_name()),
        !key.contains(':'),
        !key.contains('\n'),
        key != "source"@,
        !value.contains('\n'),
    ensures
        tag_text_of(out) == Some(rendered(provider, key, value)),
        kv_of(out, key) == Some(value),
        kv_of(out, "source"@) == Some(provider.name()),
        Metadata::source_named(provider.name()) == provider,
        all_pairs(rendered(provider, key, value)) == seq![
            ("source"@, provider.name()),
            (key, value),
        ],
{
    lemma_stamped_text(entries, provider, key, value);
    lemma_rendered_pairs(provider, key, value);
    lemma_name_round_trip(provider);
    reveal_with_fuel(first_value, 3);
}

/// The provider that was stamped is read back whatever the key and the
/// value hold: it stands in the first line of the text, which ends before
/// they begin. This holds for every container that had no provenance entry.
pub proof fn lemma_stamped_provider_is_read_back(
    out: Seq<u8>,
    entries: Seq<(Seq<char>, u16, Option<Seq<u8>>)>,
    provider: Source,
    key: Seq<char>,
    value: Seq<char>,
)
    requires
        container_entries(out) == Some(stamped(entries, provider, key, value)),
        !names(entries).contains(tag_name()),
    ensures
        tag_text_of(out) == Some(rendered(provider, key, value)),
        kv_of(out, "source"@) == Some(provider.name()),
        Metadata::source_named(provider.name()) == provider,
{
    let text = rendered(provider, key, value);
    lemma_stamped_text(entries, provider, key, value);
    lemma_name_round_trip(provider);
    reveal_strlit("source: ");
    reveal_strlit("source");
    reveal_strlit("\n");
    reveal_strlit(": ");
    let name = provider.name();
    let first = "source"@ + seq![':', ' '] + name;
    let rest = key + seq![':', ' '] + value;
    assert(text =~= first + seq!['\n'] + rest);
    assert forall|j: int| 0 <= j < first.len() implies text[j] != '\n' by {
        if j >= 8 {
            assert(name.contains(name[j - 8]));
        }
    }
    lemma_find_char_is(text, '\n', first.len() as int);
    assert(text.take(first.len() as int) =~= first);
    assert(first.last() == name.last());
    let lines = lines_of(text);
    assert(lines == seq![strip_cr(first)] + lines_of(text.skip(first.len() as int + 1)));
    assert(lines[0] == first);
    assert(!"source"@.contains(':')) by {
        assert forall|j: int| 0 <= j < "source"@.len() implies "source"@[j] != ':' by {}
    }
    lemma_pair_of_line("source"@, name);
    reveal_with_fuel(first_value, 2);
}

impl Metadata {
    /// The text of the provenance entry.
    pub fn render(source: Source, key: &str, value: &str) -> (r: String)
        ensures
            r@ == rendered(source, key@, value@),
    {
        let mut r = String::from_str("source: ");
        let name = source.to_string();
        r.append(name.as_str());
        r.append("\n");
        r.append(key);
        r.append(": ");
        r.append(value);
        r
    }

    /// The key and the value of a line.
    pub fn pair_in(line: &[char]) -> (r: Option<(String, String)>)
        ensures
            match r {
                Some((key, value)) => pair_of(line@) == Some((key@, value@)),
                None => pair_of(line@) is None,
            },
    {
        let at: usize = find_from(line, 0, ':');
        proof {
            assert(line@.skip(0) =~= line@);
        }
        if at >= line.len() {
            return None;
        }
        let key = copy_range(line, 0, at);
        let from: usize = if at + 1 < line.len() && line[at + 1] == ' ' {
            at + 2
        } else {
            at + 1
        };
        let value = copy_range(line, from, line.len());
        proof {
            let rest = line@.skip(at + 1);
            assert(key@ =~= line@.take(at as int));
            if rest.len() > 0 && rest[0] == ' ' {
                assert(value@ =~= rest.skip(1));
            } else {
                assert(value@ =~= rest);
            }
        }
        Some((from_chars(key.as_slice()), from_chars(value.as_slice())))
    }

    /// The pairs of a text of provenance, in the order of its lines.
    pub fn parse(text: &str) -> (pairs: Vec<(String, String)>)
        ensures
            pair_views(pairs@) == all_pairs(text@),
    {
        let chars = to_chars(text);
        let found = lines(chars.as_slice());
        let mut pairs: Vec<(String, String)> = Vec::new();
        let mut i: usize = 0;
        proof {
            assert(pair_views(pairs@) =~= Seq::empty());
        }
        while i < found.len()
            invariant
                i <= found.len(),
                views(found@) == lines_of(text@),
                pair_views(pairs@) == pairs_of(lines_of(text@), i as nat),
            decreases found.len() - i,
        {
            let ghost before = pair_views(pairs@);
            proof {
                assert(views(found@)[i as int] == found@[i as int]@);
            }
            match Metadata::pair_in(found[i].as_slice()) {
                Some(pair) => {
                    pairs.push(pair);
                    proof {
                        assert(pair_views(pairs@) =~= before.push((pair.0@, pair.1@)));
                    }
                },
                None => {},
            }
            i = i + 1;
        }
        proof {
            assert(views(found@).len() == found@.len());
        }
        pairs
    }

    /// The value of `key` among `pairs`: the last pair with the key counts.
    pub fn lookup(pairs: &Vec<(String, String)>, key: &str) -> (r: Option<String>)
        ensures
            match r {
                Some(value) => last_value(pair_views(pairs@), key@, pairs@.len()) == Some(value@),
                None => last_value(pair_views(pairs@), key@, pairs@.len()) is None,
            },
    {
        let k = to_chars(key);
        let mut i: usize = pairs.len();
        while i > 0
            invariant
                i <= pairs.len(),
                k@ == key@,
                last_value(pair_views(pairs@), key@, pairs@.len()) == last_value(
                    pair_views(pairs@),
                    key@,
                    i as nat,
                ),
            decreases i,
        {
            let candidate = to_chars(pairs[i - 1].0.as_str());
            proof {
                assert(pair_views(pairs@)[i - 1] == (pairs@[i - 1].0@, pairs@[i - 1].1@));
            }
            if chars_eq(candidate.as_slice(), k.as_slice()) {
                return Some(pairs[i - 1].1.clone());
            }
            i = i - 1;
        }
        None
    }

    /// The value of the first line whose key is `key`, as it stands after
    /// the colon and the space that follow the key.
    pub fn find(text: &str, key: &str) -> (r: Result<String, Error>)
        ensures
            match r {
                Ok(value) => first_value(lines_of(text@), key@, 0) == Some(value@),
                Err(e) => first_value(lines_of(text@), key@, 0) is None && e is NoKeyFound,
            },
    {
        let chars = to_chars(text);
        let found = lines(chars.as_slice());
        let mut i: usize = 0;
        proof {
            assert(views(found@).len() == found@.len());
        }
        while i < found.len()
            invariant
                i <= found.len(),
                views(found@) == lines_of(text@),
                first_value(lines_of(text@), key@, 0) == first_value(
                    lines_of(text@),
                    key@,
                    i as nat,
                ),
            decreases found.len() - i,
        {
            proof {
                assert(views(found@)[i as int] == found@[i as int]@);
            }
            match Metadata::pair_in(found[i].as_slice()) {
                Some((k, value)) => {
                    if crate::text::str_eq(k.as_str(), key) {
                        return Ok(value);
                    }
                },
                None => {},
            }
            i = i + 1;
        }
        Err(Error::NoKeyFound)
    }

    /// The provider and the repository that a text of provenance names.
    pub fn read_stamp_text(text: &str) -> (r: Option<(Source, String)>)
        ensures
            match r {
                Some((provider, repo)) => stamp_of(text@) == Some((provider, repo@)),
                None => stamp_of(text@) is None,
            },
    {
        let pairs = Metadata::parse(text);
        let name = match Metadata::lookup(&pairs, "source") {
            Some(name) => name,
            None => {
                return None;
            },
        };
        let provider = match Source::from_name(name.as_str()) {
            Ok(provider) => provider,
            Err(_) => {
                return None;
            },
        };
        match Metadata::lookup(&pairs, "repo") {
            Some(repo) => Some((provider, repo)),
            None => None,
        }
    }

    /// The text of the provenance entry of a container.
    pub fn tag_text(container: Vec<u8>) -> (r: Result<String, Error>)
        ensures
            match r {
                Ok(text) => tag_text_of(container@) == Some(text@),
                Err(e) => {
                    &&& tag_text_of(container@) is None
                    &&& tag_bytes(container@) is None ==> e is Unzip
                    &&& tag_bytes(container@) == Some(None::<Seq<u8>>) ==> e is Unzip || e is IOErr
                    &&& e is ParseErr <==> tag_bytes(container@) is Some && tag_bytes(container@)->0 is Some
                    &&& !(e is NoKeyFound)
                    &&& !(e is SerdeErr)
                },
            },
    {
        let mut archive = match open(container) {
            Ok(archive) => archive,
            Err(e) => {
                return Err(Error::Unzip(e));
            },
        };
        let ghost entries = archive_entries(archive);
        proof {
            // Where an entry has the name, it is the one that is read.
            if names(entries).contains(tag_name()) {
                let first = names(entries).index_of(tag_name());
                assert(entries[first].0 == tag_name());
            }
        }
        let bytes = match entry_bytes_by_name(&mut archive, "META-INF/MODDER-RS.MF") {
            Ok(Ok(bytes)) => bytes,
            Ok(Err(e)) => {
                return Err(Error::IOErr(e));
            },
            Err(e) => {
                return Err(Error::Unzip(e));
            },
        };
        proof {
            let at = choose|i: int|
                0 <= i < entries.len() && (#[trigger] entries[i]).0 == tag_name() && entries[i].2
                    == Some(bytes@);
            assert(names(entries)[at] == tag_name());
            let first = names(entries).index_of(tag_name());
            assert(first == at);
        }
        match string_from_utf8(bytes) {
            Ok(text) => Ok(text),
            Err(e) => Err(Error::ParseErr(e)),
        }
    }

    /// Adds the provenance to a mod: the container that comes back holds every
    /// entry of `container`, with its name, its method and its bytes, as it
    /// was and where it was, and after them one entry with the provider and
    /// with `value` under `key`. It comes back exactly where the mod can be
    /// stamped; a mod that has a provenance entry is refused.
    pub fn add_metadata(container: Vec<u8>, source: Source, key: &str, value: &str) -> (r: Result<
        Vec<u8>,
        Error,
    >)
        ensures
            match r {
                Ok(out) => match container_entries(container@) {
                    Some(entries) => can_stamp(entries, source, key@, value@) && !names(
                        entries,
                    ).contains(tag_name()) && container_entries(out@) == Some(
                        stamped(entries, source, key@, value@),
                    ),
                    None => false,
                },
                Err(e) => {
                    &&& !(e is NoKeyFound)
                    &&& !(e is SerdeErr)
                    &&& !(e is ParseErr)
                    &&& match container_entries(container@) {
                        Some(entries) => !can_stamp(entries, source, key@, value@),
                        None => e is Unzip,
                    }
                },
            },
            container_entries(container@) matches Some(entries) && names(entries).contains(
                tag_name(),
            ) ==> r is Err,
    {
        let mut archive = match open(container) {
            Ok(archive) => archive,
            Err(e) => {
                return Err(Error::Unzip(e));
            },
        };
        let ghost entries = archive_entries(archive);
        let ghost text = rendered(source, key@, value@);
        let ghost all = plain(stamped(entries, source, key@, value@));
        let mut writer = writer_new();
        let count: usize = entry_count(&archive);
        let mut i: usize = 0;
        proof {
            assert(writer_entries(writer) =~= plain(entries).take(0));
        }
        while i < count
            invariant
                i <= count,
                count == entries.len(),
                container_entries(container@) == Some(entries),
                archive_entries(archive) == entries,
                all == plain(stamped(entries, source, key@, value@)),
                writer_sound(writer),
                writer_entries(writer) == plain(entries).take(i as int),
                forall|k: int| 0 <= k < i ==> (#[trigger] entries[k]).2 is Some,
                forall|k: int| 0 <= k < i ==> encode_utf8((#[trigger] entries[k]).0).len() <= NAME_LIMIT,
                forall|k: int| 0 <= k < i ==> #[trigger] step_ok(all, k),
            decreases count - i,
        {
            let ghost written = writer_entries(writer);
            proof {
                assert(all.take(i as int) =~= written);
                assert(all[i as int] == plain(entries)[i as int]);
            }
            let name = entry_name(&archive, i);
            let (method, bytes) = match entry_bytes(&mut archive, i) {
                Ok(Ok(found)) => found,
                Ok(Err(e)) => {
                    assert(entries[i as int].2 is None);
                    return Err(Error::IOErr(e));
                },
                Err(e) => {
                    assert(entries[i as int].2 is None);
                    return Err(Error::Unzip(e));
                },
            };
            if name.as_str().as_bytes().len() > NAME_LIMIT {
                assert(encode_utf8(entries[i as int].0).len() > NAME_LIMIT);
                return Err(Error::LongName(name));
            }
            match writer_start_file(&mut writer, name.as_str(), method) {
                Ok(()) => {},
                Err(e) => {
                    assert(!step_ok(all, i as int));
                    return Err(Error::Unzip(e));
                },
            }
            match writer_write_all(&mut writer, bytes.as_slice()) {
                Ok(()) => {},
                Err(e) => {
                    assert(!step_ok(all, i as int));
                    return Err(Error::IOErr(e));
                },
            }
            proof {
                assert(Seq::<u8>::empty() + bytes@ =~= bytes@);
                assert(writer_entries(writer) =~= written.push((name@, method, bytes@)));
                assert(plain(entries)[i as int] == (name@, method, bytes@));
                assert(plain(entries).take(i + 1) =~= plain(entries).take(i as int).push(
                    plain(entries)[i as int],
                ));
                assert(step_ok(all, i as int));
            }
            i = i + 1;
        }
        let ghost written = writer_entries(writer);
        proof {
            assert(plain(entries).take(count as int) =~= plain(entries));
            assert(all.take(count as int) =~= written);
            assert(all[count as int] == (tag_name(), DEFLATED, encode_utf8(text)));
            assert(written_names(written) =~= names(entries));
            reveal_strlit("META-INF/MODDER-RS.MF");
            assert(vstd::utf8::is_ascii_chars(tag_name()));
            vstd::utf8::is_ascii_chars_encode_utf8(tag_name());
        }
        let text = Metadata::render(source, key, value);
        match writer_start_file(&mut writer, "META-INF/MODDER-RS.MF", DEFLATED) {
            Ok(()) => {},
            Err(e) => {
                assert(!step_ok(all, count as int));
                return Err(Error::Unzip(e));
            },
        }
        match writer_write_all(&mut writer, text.as_str().as_bytes()) {
            Ok(()) => {},
            Err(e) => {
                assert(!step_ok(all, count as int));
                return Err(Error::IOErr(e));
            },
        }
        proof {
            assert(Seq::<u8>::empty() + encode_utf8(text@) =~= encode_utf8(text@));
            assert(writer_entries(writer) =~= written.push((tag_name(), DEFLATED, encode_utf8(text@))));
            assert(writer_entries(writer) =~= all);
            assert(step_ok(all, count as int));
            assert(unpacked(all) =~= stamped(entries, source, key@, value@));
        }
        match writer_finish(writer) {
            Ok(out) => Ok(out),
            Err(e) => Err(Error::Unzip(e)),
        }
    }

    /// Writes into a mod which provider and which repository it came from.
    pub fn stamp(container: Vec<u8>, provider: Source, repo_ref: &str) -> (r: Result<Vec<u8>, Error>)
        ensures
            match r {
                Ok(out) => match container_entries(container@) {
                    Some(entries) => can_stamp(entries, provider, reference_key(), repo_ref@)
                        && !names(entries).contains(tag_name()) && container_entries(out@) == Some(
                        stamped(entries, provider, reference_key(), repo_ref@),
                    ),
                    None => false,
                },
                Err(e) => match container_entries(container@) {
                    Some(entries) => !can_stamp(entries, provider, reference_key(), repo_ref@),
                    None => e is Unzip,
                },
            },
            container_entries(container@) matches Some(entries) && names(entries).contains(
                tag_name(),
            ) ==> r is Err,
    {
        Metadata::add_metadata(container, provider, "repo", repo_ref)
    }

    /// Reads from a mod which provider and which repository it came from:
    /// those that its provenance entry names. `None` where the bytes are no
    /// container, where the container has no such entry or one that cannot
    /// be unpacked or is no text, and where the text names no provider or no
    /// repository.
    pub fn read_stamp(container: Vec<u8>) -> (r: Option<(Source, String)>)
        ensures
            match r {
                Some((provider, repo)) => stamp_at(container@) == Some((provider, repo@)),
                None => stamp_at(container@) is None,
            },
    {
        proof {
            lemma_stamp_at(container@);
        }
        match Metadata::tag_text(container) {
            Ok(text) => Metadata::read_stamp_text(text.as_str()),
            Err(_) => None,
        }
    }

    /// The pairs of the provenance entry of a mod, in the order of its lines.
    pub fn get_all_metadata(container: Vec<u8>) -> (r: Result<Vec<(String, String)>, Error>)
        ensures
            match r {
                Ok(pairs) => tag_text_of(container@) is Some && pair_views(pairs@) == all_pairs(
                    tag_text_of(container@)->0,
                ),
                Err(e) => tag_text_of(container@) is None && (tag_bytes(container@) is None ==> e
                    is Unzip),
            },
    {
        match Metadata::tag_text(container) {
            Ok(text) => Ok(Metadata::parse(text.as_str())),
            Err(e) => Err(e),
        }
    }

    /// What the provenance entry of a mod holds under `key`.
    pub fn get_kv(container: Vec<u8>, key: &str) -> (r: Result<String, Error>)
        ensures
            match r {
                Ok(value) => kv_of(container@, key@) == Some(value@),
                Err(e) => {
                    &&& kv_of(container@, key@) is None
                    &&& tag_bytes(container@) is None ==> e is Unzip
                    &&& e is NoKeyFound <==> tag_text_of(container@) is Some
                },
            },
    {
        match Metadata::tag_text(container) {
            Ok(text) => Metadata::find(text.as_str(), key),
            Err(e) => Err(e),
        }
    }

    /// The provider that the provenance entry of a mod names: the
    /// content-addressed registry where the name is none of the providers'.
    pub fn get_source(container: Vec<u8>) -> (r: Result<Source, Error>)
        ensures
            match r {
                Ok(source) => kv_of(container@, "source"@) is Some && source == Metadata::source_named(
                    kv_of(container@, "source"@)->0,
                ),
                Err(e) => {
                    &&& kv_of(container@, "source"@) is None
                    &&& tag_bytes(container@) is None ==> e is Unzip
                    &&& e is NoKeyFound <==> tag_text_of(container@) is Some
                },
            },
    {
        match Metadata::get_kv(container, "source") {
            Ok(name) => match Source::from_name(name.as_str()) {
                Ok(source) => Ok(source),
                Err(_) => Ok(Source::Modrinth),
            },
            Err(e) => Err(e),
        }
    }

    /// The provider that `name` stands for, the content-addressed registry
    /// where it stands for none.
    pub open spec fn source_named(name: Seq<char>) -> Source {
        match Source::named(name) {
            Some(source) => source,
            None => Source::Modrinth,
        }
    }
}

} // verus!
