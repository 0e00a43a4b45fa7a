//! The known-hosts store: the host keys that were trusted before.
//!
//! The store is an ordered sequence of records. In its file each record is
//! one line of three words, the host-spec, the key type and the key blob in
//! base64. Lines that are blank, that begin with `#` or that hold fewer than
//! three words are no records. A line whose first word is a hashed name or
//! a marker is a record like any other, and is found for no host. What is
//! newly trusted is written behind the text that is there, so no line of
//! the file is lost.

use vstd::prelude::*;
use crate::base64::{encode, encode_spec, lemma_encode_is_word};
use crate::hostspec::{
    host_spec, host_spec_of, is_plain_host, lemma_host_spec_injective, lemma_host_spec_is_word,
};
use crate::text::{
    after_line, chars_of, is_space, is_word, join_spec, lemma_line_chars, lemma_line_len_bound,
    lemma_line_len_of_prefix, lemma_words_nonempty, lemma_words_of_join, line_end, line_len,
    push_char, split_words, views_of, words,
};

verus! {

/// The key that a host offers: the name of its type and the raw key blob.
pub struct HostKey {
    pub key_type: String,
    pub blob: Vec<u8>,
}

/// What an offered key holds, as plain sequences.
pub struct KeyView {
    pub key_type: Seq<char>,
    pub blob: Seq<u8>,
}

impl View for HostKey {
    type V = KeyView;

    open spec fn view(&self) -> KeyView {
        KeyView { key_type: self.key_type@, blob: self.blob@ }
    }
}

/// One trusted key: the host-spec it belongs to, the name of its type and
/// the key blob in base64.
pub struct HostRecord {
    pub host_spec: String,
    pub key_type: String,
    pub key: String,
}

/// What a record holds, as plain sequences.
pub struct RecordView {
    pub host_spec: Seq<char>,
    pub key_type: Seq<char>,
    pub key: Seq<char>,
}

impl View for HostRecord {
    type V = RecordView;

    open spec fn view(&self) -> RecordView {
        RecordView { host_spec: self.host_spec@, key_type: self.key_type@, key: self.key@ }
    }
}

/// The records that were loaded, in the order of the file.
pub struct KnownHostsStore {
    pub records: Vec<HostRecord>,
}

impl View for KnownHostsStore {
    type V = Seq<RecordView>;

    open spec fn view(&self) -> Seq<RecordView> {
        record_views(self.records@)
    }
}

/// The views of a sequence of records.
pub open spec fn record_views(records: Seq<HostRecord>) -> Seq<RecordView> {
    records.map_values(|r: HostRecord| r@)
}

/// What a lookup in the store found for a host-spec and a key.
#[derive(Clone, Copy, Debug, PartialEq, Eq, Structural)]
pub enum Lookup {
    /// A record for the host-spec carries this very key.
    Match,
    /// There are records for the host-spec, and none carries this key.
    Mismatch,
    /// No record is for the host-spec.
    NotFound,
}

/// The record that one line of the file stands for, if it is one: its first
/// three words, unless the first begins with `#`.
pub open spec fn record_of_line(line: Seq<char>) -> Option<RecordView> {
    let w = words(line);
    if w.len() >= 3 && w[0][0] != '#' {
        Some(RecordView { host_spec: w[0], key_type: w[1], key: w[2] })
    } else {
        None
    }
}

/// The records of a file's text: those of its lines, in order.
pub open spec fn parse_spec(text: Seq<char>) -> Seq<RecordView>
    decreases text.len(),
    via parse_spec_decreases
{
    if text.len() == 0 {
        Seq::empty()
    } else {
        let first = text.take(line_len(text) as int);
        match record_of_line(first) {
            Some(r) => seq![r] + parse_spec(after_line(text)),
            None => parse_spec(after_line(text)),
        }
    }
}

#[via_fn]
proof fn parse_spec_decreases(text: Seq<char>) {
    lemma_line_len_bound(text);
}

/// The line that holds `r`: its three fields with one blank between them,
/// and a line feed.
pub open spec fn line_of(r: RecordView) -> Seq<char> {
    r.host_spec + seq![' '] + r.key_type + seq![' '] + r.key + seq!['\n']
}

/// The text of a store: the lines of its records, in order.
pub open spec fn render_spec(store: Seq<RecordView>) -> Seq<char>
    decreases store.len(),
{
    if store.len() == 0 {
        Seq::empty()
    } else {
        render_spec(store.drop_last()) + line_of(store.last())
    }
}

/// The record under which `key` is trusted for `host` on `port`.
pub open spec fn record_for(host: Seq<char>, port: u16, key_type: Seq<char>, blob: Seq<u8>)
    -> RecordView {
    RecordView { host_spec: host_spec_of(host, port), key_type, key: encode_spec(blob) }
}

/// What is written behind `text` so that the file gains the record `r` and
/// nothing else: the line of `r`, on a line of its own.
pub open spec fn appended_spec(text: Seq<char>, r: RecordView) -> Seq<char> {
    if text.len() > 0 && text.last() != '\n' {
        seq!['\n'] + line_of(r)
    } else {
        line_of(r)
    }
}

/// Whether `r` is a record for the host-spec `spec`.
pub open spec fn is_for(r: RecordView, spec: Seq<char>) -> bool {
    r.host_spec == spec
}

/// What the store holds for a host-spec and a key: a match where some record
/// for the host-spec carries the key with its type, a mismatch where there
/// are records for the host-spec and none does, and nothing otherwise.
pub open spec fn lookup_spec(store: Seq<RecordView>, wanted: RecordView) -> Lookup {
    if exists|i: int| 0 <= i < store.len() && #[trigger] store[i] == wanted {
        Lookup::Match
    } else if exists|i: int| 0 <= i < store.len() && is_for(#[trigger] store[i], wanted.host_spec) {
        Lookup::Mismatch
    } else {
        Lookup::NotFound
    }
}

impl HostRecord {
    /// The record under which `key` is trusted for `host` on `port`.
    pub fn new(host: &str, port: u16, key: &HostKey) -> (r: HostRecord)
        ensures
            r@ == record_for(host@, port, key.key_type@, key.blob@),
    {
        HostRecord {
            host_spec: host_spec(host, port),
            key_type: key.key_type.clone(),
            key: encode(key.blob.as_slice()),
        }
    }

    /// The line of the file that holds this record.
    pub fn line(&self) -> (text: String)
        ensures
            text@ == line_of(self@),
    {
        let mut text = self.host_spec.clone();
        push_char(&mut text, ' ');
        text.append(self.key_type.as_str());
        push_char(&mut text, ' ');
        text.append(self.key.as_str());
        push_char(&mut text, '\n');
        assert(text@ =~= line_of(self@));
        text
    }

    /// Whether this record holds the same three fields as `other`.
    pub fn same_as(&self, other: &HostRecord) -> (r: bool)
        ensures
            r == (self@ == other@),
    {
        self.host_spec == other.host_spec && self.key_type == other.key_type && self.key
            == other.key
    }
}

/// What is to be written behind `text` so that the file gains `record`.
pub fn appended(text: &str, record: &HostRecord) -> (out: String)
    ensures
        out@ == appended_spec(text@, record@),
{
    let chars = chars_of(text);
    let line = record.line();
    if chars.len() > 0 && chars[chars.len() - 1] != '\n' {
        let mut out = String::new();
        push_char(&mut out, '\n');
        out.append(line.as_str());
        assert(out@ =~= seq!['\n'] + line_of(record@));
        out
    } else {
        line
    }
}

fn record_of_words(w: &Vec<String>) -> (r: Option<HostRecord>)
    requires
        forall|i: int| 0 <= i < w@.len() ==> is_word(#[trigger] views_of(w@)[i]),
    ensures
        match r {
            Some(rec) => views_of(w@).len() >= 3 && views_of(w@)[0][0] != '#' && rec@ == (
            RecordView {
                host_spec: views_of(w@)[0],
                key_type: views_of(w@)[1],
                key: views_of(w@)[2],
            }),
            None => !(views_of(w@).len() >= 3 && views_of(w@)[0][0] != '#'),
        },
{
    if w.len() < 3 {
        return None;
    }
    let first = chars_of(w[0].as_str());
    assert(first@ == views_of(w@)[0]);
    if first[0] == '#' {
        return None;
    }
    Some(HostRecord { host_spec: w[0].clone(), key_type: w[1].clone(), key: w[2].clone() })
}

impl KnownHostsStore {
    /// A store without records.
    pub fn new() -> (store: KnownHostsStore)
        ensures
            store@ == Seq::<RecordView>::empty(),
    {
        let store = KnownHostsStore { records: Vec::new() };
        assert(store@ =~= Seq::<RecordView>::empty());
        store
    }

    /// The number of records.
    pub fn len(&self) -> (n: usize)
        ensures
            n == self@.len(),
    {
        self.records.len()
    }

    /// The store that a file's text holds.
    pub fn parse(text: &str) -> (store: KnownHostsStore)
        ensures
            store@ == parse_spec(text@),
    {
        let chars = chars_of(text);
        let mut records: Vec<HostRecord> = Vec::new();
        let mut i: usize = 0;
        assert(chars@.skip(0) =~= chars@);
        assert(record_views(records@) =~= Seq::<RecordView>::empty());
        while i < chars.len()
            invariant
                i <= chars.len(),
                record_views(records@) + parse_spec(chars@.skip(i as int)) == parse_spec(chars@),
            decreases chars.len() - i,
        {
            let ghost rest = chars@.skip(i as int);
            let ghost before = record_views(records@);
            let end = line_end(&chars, i);
            let w = split_words(&chars, i, end);
            assert(rest.take(line_len(rest) as int) =~= chars@.subrange(i as int, end as int));
            proof {
                lemma_words_nonempty(chars@.subrange(i as int, end as int));
            }
            match record_of_words(&w) {
                Some(rec) => {
                    records.push(rec);
                    assert(record_views(records@) =~= before.push(rec@));
                    assert(before + (seq![rec@] + parse_spec(after_line(rest))) =~= before.push(
                        rec@,
                    ) + parse_spec(after_line(rest)));
                },
                None => {},
            }
            if end < chars.len() {
                assert(after_line(rest) =~= chars@.skip(end as int + 1));
                i = end + 1;
            } else {
                assert(after_line(rest) =~= chars@.skip(end as int));
                i = end;
            }
        }
        assert(record_views(records@) + Seq::<RecordView>::empty() =~= record_views(records@));
        KnownHostsStore { records }
    }

    /// The text of the store, one line for each record.
    pub fn render(&self) -> (text: String)
        ensures
            text@ == render_spec(self@),
    {
        let mut text = String::new();
        let mut i: usize = 0;
        assert(self@.take(0) =~= Seq::<RecordView>::empty());
        while i < self.records.len()
            invariant
                i <= self.records.len(),
                text@ == render_spec(self@.take(i as int)),
            decreases self.records.len() - i,
        {
            let line = self.records[i].line();
            text.append(line.as_str());
            assert(self@.take(i as int + 1).drop_last() =~= self@.take(i as int));
            i += 1;
        }
        assert(self@.take(i as int) =~= self@);
        text
    }

    /// Looks `key` up for `host` on `port`.
    pub fn lookup(&self, host: &str, port: u16, key: &HostKey) -> (found: Lookup)
        ensures
            found == lookup_spec(self@, record_for(host@, port, key.key_type@, key.blob@)),
    {
        let wanted = HostRecord::new(host, port, key);
        let mut seen = false;
        let mut i: usize = 0;
        while i < self.records.len()
            invariant
                i <= self.records.len(),
                wanted@ == record_for(host@, port, key.key_type@, key.blob@),
                forall|j: int| 0 <= j < i ==> self@[j] != wanted@,
                seen <==> exists|j: int| 0 <= j < i && is_for(#[trigger] self@[j], wanted@.host_spec),
            decreases self.records.len() - i,
        {
            if self.records[i].same_as(&wanted) {
                assert(0 <= i < self@.len() && self@[i as int] == wanted@);
                return Lookup::Match;
            }
            if self.records[i].host_spec == wanted.host_spec {
                assert(is_for(self@[i as int], wanted@.host_spec));
                seen = true;
            }
            i += 1;
        }
        if seen {
            Lookup::Mismatch
        } else {
            Lookup::NotFound
        }
    }

    /// Adds the record under which `key` is trusted for `host` on `port`,
    /// behind the records that are there.
    pub fn add(&mut self, host: &str, port: u16, key: &HostKey)
        ensures
            final(self)@ == old(self)@.push(record_for(host@, port, key.key_type@, key.blob@)),
    {
        let rec = HostRecord::new(host, port, key);
        self.records.push(rec);
        assert(self@ =~= old(self)@.push(rec@));
    }
}

/// Whether a record can stand on a line of the file: each field is a word,
/// and the host-spec does not begin like a comment.
pub open spec fn is_storable(r: RecordView) -> bool {
    &&& is_word(r.host_spec)
    &&& is_word(r.key_type)
    &&& is_word(r.key)
    &&& r.host_spec[0] != '#'
}

/// A record for one host and port is found for no other: a store that holds
/// nothing but the record of a plain host on its port has nothing for
/// another plain host or another port, whatever the key.
pub proof fn lemma_other_host_is_not_found(
    host_a: Seq<char>,
    port_a: u16,
    host_b: Seq<char>,
    port_b: u16,
    key_type: Seq<char>,
    blob: Seq<u8>,
    offered_type: Seq<char>,
    offered: Seq<u8>,
)
    requires
        is_plain_host(host_a),
        is_plain_host(host_b),
        host_a != host_b || port_a != port_b,
    ensures
        lookup_spec(
            seq![record_for(host_a, port_a, key_type, blob)],
            record_for(host_b, port_b, offered_type, offered),
        ) == Lookup::NotFound,
{
    if host_spec_of(host_a, port_a) == host_spec_of(host_b, port_b) {
        lemma_host_spec_injective(host_a, port_a, host_b, port_b);
    }
}

/// The record of a key can stand on a line where the host and the name of
/// the key type are words, the host does not begin like a comment, and the
/// key blob is not empty.
pub proof fn lemma_record_is_storable(
    host: Seq<char>,
    port: u16,
    key_type: Seq<char>,
    blob: Seq<u8>,
)
    requires
        is_word(host),
        host[0] != '#',
        is_word(key_type),
        blob.len() > 0,
    ensures
        is_storable(record_for(host, port, key_type, blob)),
{
    lemma_host_spec_is_word(host, port);
    lemma_encode_is_word(blob);
    assert(is_word(encode_spec(blob)));
}

/// The line of a storable record is read back as that record.
pub proof fn lemma_line_is_read_back(r: RecordView)
    requires
        is_storable(r),
    ensures
        parse_spec(line_of(r)) == seq![r],
{
    let body = r.host_spec + seq![' '] + r.key_type + seq![' '] + r.key;
    let fields = seq![r.host_spec, r.key_type, r.key];
    let line = line_of(r);
    assert(is_space('\n'));
    assert forall|k: int| 0 <= k < body.len() implies #[trigger] body[k] != '\n' by {
        let a = r.host_spec.len() as int;
        let b = r.key_type.len() as int;
        if k < a {
            assert(body[k] == r.host_spec[k]);
        } else if k == a {
        } else if k < a + 1 + b {
            assert(body[k] == r.key_type[k - a - 1]);
        } else if k == a + 1 + b {
        } else {
            assert(body[k] == r.key[k - a - b - 2]);
        }
    }
    lemma_line_len_of_prefix(body, seq!['\n']);
    assert(line =~= body + seq!['\n']);
    assert(line.take(body.len() as int) =~= body);
    assert(after_line(line) =~= Seq::<char>::empty());
    assert(fields.skip(1) =~= seq![r.key_type, r.key]);
    assert(fields.skip(1).skip(1) =~= seq![r.key]);
    assert(join_spec(seq![r.key], seq![' ']) == r.key);
    assert(join_spec(fields.skip(1), seq![' ']) =~= r.key_type + seq![' '] + r.key);
    assert(join_spec(fields, seq![' ']) =~= body);
    lemma_words_of_join(fields);
    assert(record_of_line(body) == Some(r));
    assert(parse_spec(Seq::<char>::empty()) =~= Seq::<RecordView>::empty());
    assert(parse_spec(line) =~= seq![r] + parse_spec(after_line(line)));
}

/// Behind a text that is empty or ends with a line feed, more text is read
/// on its own: the records of the whole are those of both parts.
pub proof fn lemma_parse_concat(a: Seq<char>, b: Seq<char>)
    requires
        a.len() == 0 || a.last() == '\n',
    ensures
        parse_spec(a + b) == parse_spec(a) + parse_spec(b),
    decreases a.len(),
{
    if a.len() == 0 {
        assert(a + b =~= b);
        assert(parse_spec(a) + parse_spec(b) =~= parse_spec(b));
    } else {
        let n = line_len(a) as int;
        lemma_line_chars(a);
        if n == a.len() {
            assert(a[a.len() - 1] != '\n');
            assert(false);
        }
        let head = a.take(n);
        let tail = a.skip(n + 1);
        assert forall|k: int| 0 <= k < head.len() implies #[trigger] head[k] != '\n' by {
            assert(head[k] == a[k]);
        }
        let rest = seq!['\n'] + tail + b;
        lemma_line_len_of_prefix(head, rest);
        assert(a + b =~= head + rest);
        assert((a + b).take(n) =~= head);
        assert(after_line(a + b) =~= tail + b);
        assert(after_line(a) =~= tail);
        if tail.len() > 0 {
            assert(tail.last() == a.last());
        }
        lemma_parse_concat(tail, b);
        match record_of_line(head) {
            Some(r) => {
                assert(parse_spec(a + b) =~= seq![r] + (parse_spec(tail) + parse_spec(b)));
                assert(parse_spec(a) =~= seq![r] + parse_spec(tail));
            },
            None => {},
        }
    }
}

/// A line feed behind a last line that has none changes no record.
pub proof fn lemma_parse_line_feed(a: Seq<char>)
    requires
        a.len() > 0,
        a.last() != '\n',
    ensures
        parse_spec(a + seq!['\n']) == parse_spec(a),
    decreases a.len(),
{
    let n = line_len(a) as int;
    let whole = a + seq!['\n'];
    lemma_line_chars(a);
    let head = a.take(n);
    assert forall|k: int| 0 <= k < head.len() implies #[trigger] head[k] != '\n' by {
        assert(head[k] == a[k]);
    }
    if n == a.len() {
        assert(head =~= a);
        lemma_line_len_of_prefix(a, seq!['\n']);
        assert(whole.take(n) =~= a);
        assert(after_line(whole) =~= Seq::<char>::empty());
        assert(after_line(a) =~= Seq::<char>::empty());
    } else {
        let tail = a.skip(n + 1);
        let rest = seq!['\n'] + tail + seq!['\n'];
        lemma_line_len_of_prefix(head, rest);
        assert(whole =~= head + rest);
        assert(whole.take(n) =~= head);
        assert(after_line(whole) =~= tail + seq!['\n']);
        assert(after_line(a) =~= tail);
        if tail.len() == 0 {
            assert(a.last() == a[n]);
            assert(false);
        }
        assert(tail.last() == a.last());
        lemma_parse_line_feed(tail);
    }
}

/// Writing what `appended_spec` gives behind the text of a file adds the
/// record to those of the file, and changes none of them.
pub proof fn lemma_append_adds_the_record(text: Seq<char>, r: RecordView)
    requires
        is_storable(r),
    ensures
        parse_spec(text + appended_spec(text, r)) == parse_spec(text).push(r),
{
    lemma_line_is_read_back(r);
    if text.len() > 0 && text.last() != '\n' {
        let closed = text + seq!['\n'];
        lemma_parse_line_feed(text);
        assert(closed.last() == '\n');
        lemma_parse_concat(closed, line_of(r));
        assert(text + appended_spec(text, r) =~= closed + line_of(r));
        assert(parse_spec(text) + seq![r] =~= parse_spec(text).push(r));
    } else {
        lemma_parse_concat(text, line_of(r));
        assert(parse_spec(text) + seq![r] =~= parse_spec(text).push(r));
    }
}

/// The text of a store ends with a line feed unless it is empty.
pub proof fn lemma_render_ends_lines(store: Seq<RecordView>)
    ensures
        render_spec(store).len() == 0 || render_spec(store).last() == '\n',
    decreases store.len(),
{
    if store.len() > 0 {
        let line = line_of(store.last());
        assert(line.last() == '\n');
        assert(render_spec(store).last() == line.last());
    }
}

/// A store of storable records is read back from its text as it was.
pub proof fn lemma_render_is_read_back(store: Seq<RecordView>)
    requires
        forall|i: int| 0 <= i < store.len() ==> is_storable(#[trigger] store[i]),
    ensures
        parse_spec(render_spec(store)) == store,
    decreases store.len(),
{
    if store.len() == 0 {
        assert(parse_spec(render_spec(store)) =~= store);
    } else {
        let before = store.drop_last();
        assert forall|i: int| 0 <= i < before.len() implies is_storable(#[trigger] before[i]) by {
            assert(before[i] == store[i]);
        }
        lemma_render_is_read_back(before);
        lemma_render_ends_lines(before);
        lemma_append_adds_the_record(render_spec(before), store.last());
        assert(before.push(store.last()) =~= store);
    }
}

} // verus!
