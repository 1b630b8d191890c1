//! The key of a compile: everything that decides which bytes the compiler emits.
use vstd::prelude::*;

use std::collections::hash_map::DefaultHasher;
use std::hash::Hasher;
use vstd::bytes::{spec_u32_to_le_bytes, spec_u64_to_le_bytes, u32_to_le_bytes, u64_to_le_bytes};
use vstd::std_specs::hash::DefaultHasherAdditionalSpecFns;
use vstd::utf8::encode_utf8;

use crate::path::{extension, has_extension, is_dir_part};
use crate::stale::{FileStamp, Timestamp};
use crate::text::{opt_text, without};

verus! {

/// The extension of Zena source files.
pub open spec fn zena_extension() -> Seq<char> {
    seq!['z', 'e', 'n', 'a']
}

/// Whether a path names a Zena source file.
pub fn is_zena_file(path: &str) -> (r: bool)
    ensures
        r == (extension(path@) == Some(zena_extension())),
{
    proof {
        reveal_strlit("zena");
        assert("zena"@ =~= zena_extension());
    }
    has_extension(path, "zena")
}

/// An entry met on a walk through a directory, with its stamp where one could be read.
#[derive(Debug)]
pub struct WalkEntry {
    pub path: String,
    pub stamp: Option<FileStamp>,
}

/// What a compile depends on.
#[derive(Debug)]
pub struct KeyInputs {
    /// The absolute path of the source file.
    pub source: String,
    pub test_mode: bool,
    pub debug: bool,
    pub target: Option<String>,
    /// The text form is asked for.
    pub wat: bool,
    pub compiler: Option<FileStamp>,
    /// The code generator that the environment asks for.
    pub backend: Option<String>,
    pub opt_level: Option<String>,
    /// What the environment says of wide arithmetic, which the compiler emits only where asked.
    pub wide_arithmetic: Option<String>,
    /// What the environment says of debug names, where `debug` does not decide that.
    pub debug_names: Option<String>,
    /// The package manifest, which steers module resolution.
    pub manifest: Option<FileStamp>,
    /// The walk through the standard library.
    pub stdlib: Vec<WalkEntry>,
    /// The walk through the package of the source file, empty where it is in none.
    pub package: Vec<WalkEntry>,
}

/// One part of a key.
pub enum KeyItem {
    Text(Seq<char>),
    Flag(bool),
    Choice(Option<Seq<char>>),
    Time(Timestamp),
    Length(u64),
}

/// The text of an optional string, empty where there is none.
pub open spec fn text_or_empty(s: Option<String>) -> Seq<char> {
    match s {
        Some(t) => t@,
        None => Seq::empty(),
    }
}

/// A file's identity: its time, where known, and its length. An unreadable file adds nothing.
pub open spec fn stamp_items(stamp: Option<FileStamp>) -> Seq<KeyItem> {
    match stamp {
        Some(s) => match s.modified {
            Some(t) => seq![KeyItem::Time(t), KeyItem::Length(s.len)],
            None => seq![KeyItem::Length(s.len)],
        },
        None => Seq::empty(),
    }
}

/// The Zena files of a walk, each with its path and identity, in the order met.
pub open spec fn walk_items(walk: Seq<WalkEntry>) -> Seq<KeyItem>
    decreases walk.len(),
{
    if walk.len() == 0 {
        Seq::empty()
    } else {
        let before = walk_items(walk.drop_last());
        let e = walk.last();
        if extension(e.path@) == Some(zena_extension()) {
            before + (seq![KeyItem::Text(e.path@)] + stamp_items(e.stamp))
        } else {
            before
        }
    }
}

impl KeyInputs {
    /// The parts that come before any file's identity.
    pub open spec fn request_items(self) -> Seq<KeyItem> {
        seq![
            KeyItem::Text(self.source@),
            KeyItem::Flag(self.test_mode),
            KeyItem::Flag(self.debug),
            KeyItem::Choice(opt_text(self.target)),
            KeyItem::Flag(self.wat),
        ]
    }

    /// The parts that the environment sets.
    pub open spec fn setting_items(self) -> Seq<KeyItem> {
        seq![
            KeyItem::Text(text_or_empty(self.backend)),
            KeyItem::Text(text_or_empty(self.opt_level)),
            KeyItem::Text(text_or_empty(self.wide_arithmetic)),
            KeyItem::Text(text_or_empty(self.debug_names)),
        ]
    }

    /// The whole key.
    pub open spec fn items(self) -> Seq<KeyItem> {
        self.request_items() + stamp_items(self.compiler) + self.setting_items() + stamp_items(
            self.manifest,
        ) + walk_items(self.stdlib@) + walk_items(self.package@)
    }
}

// ---------------------------------------------------------------------------------------------
// Hashing
// ---------------------------------------------------------------------------------------------
/// What is written to the hasher for a text: its bytes, and a byte that no text holds.
pub open spec fn text_writes(t: Seq<char>) -> Seq<Seq<u8>> {
    seq![encode_utf8(t), seq![0xffu8]]
}

/// What is written to the hasher for one part of a key.
pub open spec fn item_writes(item: KeyItem) -> Seq<Seq<u8>> {
    match item {
        KeyItem::Text(t) => text_writes(t),
        KeyItem::Flag(b) => seq![seq![if b { 1u8 } else { 0u8 }]],
        KeyItem::Choice(None) => seq![spec_u64_to_le_bytes(0)],
        KeyItem::Choice(Some(t)) => seq![spec_u64_to_le_bytes(1)] + text_writes(t),
        KeyItem::Time(t) => seq![
            spec_u64_to_le_bytes(t.secs as u64),
            spec_u32_to_le_bytes(t.nanos),
        ],
        KeyItem::Length(n) => seq![spec_u64_to_le_bytes(n)],
    }
}

/// What is written to the hasher for a key.
pub open spec fn key_writes(items: Seq<KeyItem>) -> Seq<Seq<u8>>
    decreases items.len(),
{
    if items.len() == 0 {
        Seq::empty()
    } else {
        key_writes(items.drop_last()) + item_writes(items.last())
    }
}

/// The number that stands for a key.
pub open spec fn key_digest(items: Seq<KeyItem>) -> u64 {
    DefaultHasher::spec_finish(key_writes(items))
}

proof fn lemma_key_writes_add(a: Seq<KeyItem>, b: Seq<KeyItem>)
    ensures
        key_writes(a + b) == key_writes(a) + key_writes(b),
    decreases b.len(),
{
    if b.len() == 0 {
        assert(a + b =~= a);
        assert(key_writes(a) + key_writes(b) =~= key_writes(a));
    } else {
        assert((a + b).drop_last() =~= a + b.drop_last());
        assert((a + b).last() == b.last());
        lemma_key_writes_add(a, b.drop_last());
        assert(key_writes(a + b) =~= key_writes(a) + key_writes(b));
    }
}

proof fn lemma_key_writes_push(a: Seq<KeyItem>, x: KeyItem)
    ensures
        key_writes(a.push(x)) == key_writes(a) + item_writes(x),
{
    assert(a.push(x).drop_last() =~= a);
}

fn write_text(h: &mut DefaultHasher, t: &str)
    ensures
        final(h)@ == old(h)@ + text_writes(t@),
{
    h.write(t.as_bytes());
    let mut end: Vec<u8> = Vec::new();
    end.push(0xff);
    h.write(end.as_slice());
    assert(end@ =~= seq![0xffu8]);
    assert(h@ =~= old(h)@ + text_writes(t@));
}

fn write_flag(h: &mut DefaultHasher, b: bool)
    ensures
        final(h)@ == old(h)@ + item_writes(KeyItem::Flag(b)),
{
    let mut bytes: Vec<u8> = Vec::new();
    bytes.push(if b {
        1
    } else {
        0
    });
    h.write(bytes.as_slice());
    assert(bytes@ =~= seq![if b { 1u8 } else { 0u8 }]);
    assert(h@ =~= old(h)@ + item_writes(KeyItem::Flag(b)));
}

fn write_number(h: &mut DefaultHasher, n: u64)
    ensures
        final(h)@ == old(h)@ + seq![spec_u64_to_le_bytes(n)],
{
    let bytes: Vec<u8> = u64_to_le_bytes(n);
    h.write(bytes.as_slice());
    assert(h@ =~= old(h)@ + seq![spec_u64_to_le_bytes(n)]);
}

/// Writes a setting of the environment; one that is not set counts as empty.
fn write_setting(h: &mut DefaultHasher, setting: &Option<String>)
    ensures
        final(h)@ == old(h)@ + text_writes(text_or_empty(*setting)),
{
    match setting {
        Some(t) => write_text(h, t),
        None => {
            proof {
                reveal_strlit("");
                assert(""@ =~= Seq::<char>::empty());
            }
            write_text(h, "")
        },
    }
}

fn write_choice(h: &mut DefaultHasher, c: &Option<String>)
    ensures
        final(h)@ == old(h)@ + item_writes(KeyItem::Choice(opt_text(*c))),
{
    match c {
        Some(t) => {
            write_number(h, 1);
            write_text(h, t);
        },
        None => {
            write_number(h, 0);
        },
    }
    assert(h@ =~= old(h)@ + item_writes(KeyItem::Choice(opt_text(*c))));
}

fn write_stamp(h: &mut DefaultHasher, stamp: &Option<FileStamp>)
    ensures
        final(h)@ == old(h)@ + key_writes(stamp_items(*stamp)),
{
    proof {
        reveal_with_fuel(key_writes, 3);
    }
    match stamp {
        Some(s) => {
            match s.modified {
                Some(t) => {
                    write_number(h, t.secs as u64);
                    let nanos: Vec<u8> = u32_to_le_bytes(t.nanos);
                    h.write(nanos.as_slice());
                    proof {
                        let items = stamp_items(*stamp);
                        assert(items.drop_last() =~= seq![KeyItem::Time(t)]);
                        assert(items.drop_last().drop_last() =~= Seq::<KeyItem>::empty());
                    }
                },
                None => {
                    assert(stamp_items(*stamp).drop_last() =~= Seq::<KeyItem>::empty());
                },
            }
            write_number(h, s.len);
        },
        None => {},
    }
    assert(h@ =~= old(h)@ + key_writes(stamp_items(*stamp)));
}

fn write_walk(h: &mut DefaultHasher, walk: &Vec<WalkEntry>)
    ensures
        final(h)@ == old(h)@ + key_writes(walk_items(walk@)),
{
    let ghost start = h@;
    let mut i: usize = 0;
    assert(walk@.take(0) =~= Seq::<WalkEntry>::empty());
    assert(start + key_writes(Seq::<KeyItem>::empty()) =~= start);
    while i < walk.len()
        invariant
            i <= walk@.len(),
            h@ == start + key_writes(walk_items(walk@.take(i as int))),
        decreases walk@.len() - i,
    {
        let e: &WalkEntry = &walk[i];
        let ghost before = walk_items(walk@.take(i as int));
        let ghost before_h = h@;
        assert(walk@.take(i + 1).drop_last() =~= walk@.take(i as int));
        if is_zena_file(&e.path) {
            write_text(h, &e.path);
            write_stamp(h, &e.stamp);
            proof {
                let more = seq![KeyItem::Text(e.path@)] + stamp_items(e.stamp);
                lemma_key_writes_add(seq![KeyItem::Text(e.path@)], stamp_items(e.stamp));
                lemma_key_writes_push(Seq::<KeyItem>::empty(), KeyItem::Text(e.path@));
                assert(Seq::<KeyItem>::empty().push(KeyItem::Text(e.path@)) =~= seq![
                    KeyItem::Text(e.path@),
                ]);
                lemma_key_writes_add(before, more);
                assert(h@ =~= before_h + key_writes(more));
                assert(h@ =~= start + key_writes(before + more));
            }
        }
        i += 1;
    }
    assert(walk@.take(i as int) =~= walk@);
}

/// The number that stands for a compile's key.
pub fn cache_key(inputs: &KeyInputs) -> (r: u64)
    ensures
        r == key_digest(inputs.items()),
{
    let mut h: DefaultHasher = DefaultHasher::new();
    let ghost first = inputs.request_items();
    let ghost second = first + stamp_items(inputs.compiler);
    let ghost third = second + inputs.setting_items();
    let ghost fourth = third + stamp_items(inputs.manifest);
    let ghost fifth = fourth + walk_items(inputs.stdlib@);
    write_text(&mut h, &inputs.source);
    write_flag(&mut h, inputs.test_mode);
    write_flag(&mut h, inputs.debug);
    write_choice(&mut h, &inputs.target);
    write_flag(&mut h, inputs.wat);
    proof {
        let e = Seq::<KeyItem>::empty();
        assert(first =~= e.push(first[0]).push(first[1]).push(first[2]).push(first[3]).push(
            first[4],
        ));
        lemma_key_writes_push(e, first[0]);
        lemma_key_writes_push(e.push(first[0]), first[1]);
        lemma_key_writes_push(e.push(first[0]).push(first[1]), first[2]);
        lemma_key_writes_push(e.push(first[0]).push(first[1]).push(first[2]), first[3]);
        lemma_key_writes_push(
            e.push(first[0]).push(first[1]).push(first[2]).push(first[3]),
            first[4],
        );
        assert(h@ =~= key_writes(first));
    }
    // The compiler is known by its time and length rather than by its bytes: reading them all
    // on every run is measurable, and a rebuilt but identical compiler costs one compile.
    write_stamp(&mut h, &inputs.compiler);
    proof {
        lemma_key_writes_add(first, stamp_items(inputs.compiler));
    }
    write_setting(&mut h, &inputs.backend);
    write_setting(&mut h, &inputs.opt_level);
    write_setting(&mut h, &inputs.wide_arithmetic);
    write_setting(&mut h, &inputs.debug_names);
    proof {
        let s = inputs.setting_items();
        let e = Seq::<KeyItem>::empty();
        assert(s =~= e.push(s[0]).push(s[1]).push(s[2]).push(s[3]));
        lemma_key_writes_push(e, s[0]);
        lemma_key_writes_push(e.push(s[0]), s[1]);
        lemma_key_writes_push(e.push(s[0]).push(s[1]), s[2]);
        lemma_key_writes_push(e.push(s[0]).push(s[1]).push(s[2]), s[3]);
        lemma_key_writes_add(second, s);
        assert(h@ =~= key_writes(third));
    }
    write_stamp(&mut h, &inputs.manifest);
    proof {
        lemma_key_writes_add(third, stamp_items(inputs.manifest));
    }
    write_walk(&mut h, &inputs.stdlib);
    proof {
        lemma_key_writes_add(fourth, walk_items(inputs.stdlib@));
    }
    write_walk(&mut h, &inputs.package);
    proof {
        lemma_key_writes_add(fifth, walk_items(inputs.package@));
    }
    h.finish()
}

// ---------------------------------------------------------------------------------------------
// What a key tells apart
// ---------------------------------------------------------------------------------------------
/// The Zena files of a walk, each with its stamp, in the order met.
pub open spec fn zena_files(walk: Seq<WalkEntry>) -> Seq<(Seq<char>, Option<FileStamp>)>
    decreases walk.len(),
{
    if walk.len() == 0 {
        Seq::empty()
    } else {
        let before = zena_files(walk.drop_last());
        let e = walk.last();
        if extension(e.path@) == Some(zena_extension()) {
            before.push((e.path@, e.stamp))
        } else {
            before
        }
    }
}

/// What is written for a file's identity.
spec fn stamp_writes(stamp: Option<FileStamp>) -> Seq<Seq<u8>> {
    match stamp {
        Some(s) => match s.modified {
            Some(t) => seq![
                spec_u64_to_le_bytes(t.secs as u64),
                spec_u32_to_le_bytes(t.nanos),
                spec_u64_to_le_bytes(s.len),
            ],
            None => seq![spec_u64_to_le_bytes(s.len)],
        },
        None => Seq::empty(),
    }
}

/// What is written for files, each by its path and identity.
spec fn file_writes(files: Seq<(Seq<char>, Option<FileStamp>)>) -> Seq<Seq<u8>>
    decreases files.len(),
{
    if files.len() == 0 {
        Seq::empty()
    } else {
        file_writes(files.drop_last()) + (text_writes(files.last().0) + stamp_writes(
            files.last().1,
        ))
    }
}

/// The writes start with those of a text.
spec fn starts_with_text(w: Seq<Seq<u8>>) -> bool {
    w.len() >= 2 && w[0] != seq![0xffu8] && w[1] == seq![0xffu8]
}

/// The bytes of a text are never the byte that ends a text.
proof fn lemma_text_is_not_its_end(t: Seq<char>)
    ensures
        encode_utf8(t) != seq![0xffu8],
{
    vstd::utf8::encode_utf8_valid_utf8(t);
    if encode_utf8(t) == seq![0xffu8] {
        assert(vstd::utf8::valid_first_scalar(encode_utf8(t)));
    }
}

proof fn lemma_texts_differ(t: Seq<char>, u: Seq<char>)
    requires
        encode_utf8(t) == encode_utf8(u),
    ensures
        t == u,
{
    vstd::utf8::encode_utf8_decode_utf8(t);
    vstd::utf8::encode_utf8_decode_utf8(u);
}

proof fn lemma_stamp_writes(stamp: Option<FileStamp>)
    ensures
        key_writes(stamp_items(stamp)) == stamp_writes(stamp),
{
    let e = Seq::<KeyItem>::empty();
    let items = stamp_items(stamp);
    if items.len() >= 1 {
        lemma_key_writes_push(e, items[0]);
    }
    if items.len() == 1 {
        assert(items =~= e.push(items[0]));
    } else if items.len() == 2 {
        lemma_key_writes_push(e.push(items[0]), items[1]);
        assert(items =~= e.push(items[0]).push(items[1]));
    }
    assert(key_writes(items) =~= stamp_writes(stamp));
}

proof fn lemma_walk_writes(walk: Seq<WalkEntry>)
    ensures
        key_writes(walk_items(walk)) == file_writes(zena_files(walk)),
    decreases walk.len(),
{
    if walk.len() > 0 {
        lemma_walk_writes(walk.drop_last());
        let before = walk_items(walk.drop_last());
        let files = zena_files(walk.drop_last());
        let e = walk.last();
        if extension(e.path@) == Some(zena_extension()) {
            let text = seq![KeyItem::Text(e.path@)];
            assert(files.push((e.path@, e.stamp)).drop_last() =~= files);
            lemma_key_writes_add(before, text + stamp_items(e.stamp));
            lemma_key_writes_add(text, stamp_items(e.stamp));
            lemma_key_writes_push(Seq::<KeyItem>::empty(), KeyItem::Text(e.path@));
            assert(text =~= Seq::<KeyItem>::empty().push(KeyItem::Text(e.path@)));
            assert(key_writes(text) =~= text_writes(e.path@));
            lemma_stamp_writes(e.stamp);
        }
    }
}

proof fn lemma_file_writes_add(
    a: Seq<(Seq<char>, Option<FileStamp>)>,
    b: Seq<(Seq<char>, Option<FileStamp>)>,
)
    ensures
        file_writes(a + b) == file_writes(a) + file_writes(b),
    decreases b.len(),
{
    if b.len() == 0 {
        assert(a + b =~= a);
        assert(file_writes(a) + file_writes(b) =~= file_writes(a));
    } else {
        assert((a + b).drop_last() =~= a + b.drop_last());
        lemma_file_writes_add(a, b.drop_last());
        assert(file_writes(a + b) =~= file_writes(a) + file_writes(b));
    }
}

proof fn lemma_file_writes_front(files: Seq<(Seq<char>, Option<FileStamp>)>)
    ensures
        file_writes(files).len() > 0 ==> starts_with_text(file_writes(files)),
    decreases files.len(),
{
    if files.len() > 0 {
        lemma_file_writes_front(files.drop_last());
        lemma_text_is_not_its_end(files.last().0);
        let head = file_writes(files.drop_last());
        let all = file_writes(files);
        if head.len() > 0 {
            assert(all[0] == head[0] && all[1] == head[1]);
        } else {
            assert(all[0] == encode_utf8(files.last().0) && all[1] == seq![0xffu8]);
        }
    }
}

/// What is written for a stamp tells it.
proof fn lemma_stamps_differ(s: Option<FileStamp>, t: Option<FileStamp>)
    requires
        stamp_writes(s) == stamp_writes(t),
    ensures
        s == t,
{
    vstd::bytes::lemma_auto_spec_u64_to_from_le_bytes();
    vstd::bytes::lemma_auto_spec_u32_to_from_le_bytes();
    let x = stamp_writes(s);
    let y = stamp_writes(t);
    if x.len() == 1 {
        assert(x[0] == y[0]);
        assert(s == t);
    } else if x.len() == 3 {
        assert(x[0] == y[0] && x[1] == y[1] && x[2] == y[2]);
        assert(s->0.modified is Some && t->0.modified is Some);
        let p = s->0.modified->0.secs;
        let q = t->0.modified->0.secs;
        assert(x[1] == spec_u32_to_le_bytes(s->0.modified->0.nanos));
        assert(y[1] == spec_u32_to_le_bytes(t->0.modified->0.nanos));
        assert(p as u64 == q as u64);
        assert(p == q) by (bit_vector)
            requires
                p as u64 == q as u64,
        ;
        assert(s->0.modified->0.nanos == t->0.modified->0.nanos);
        assert(s->0.len == t->0.len);
        assert(s->0.modified->0 == t->0.modified->0);
    }
}

/// Rows that are equal as a whole, with fronts of equal length, are equal in front and behind.
proof fn lemma_split_equal(
    p: Seq<Seq<u8>>,
    x: Seq<Seq<u8>>,
    q: Seq<Seq<u8>>,
    y: Seq<Seq<u8>>,
)
    requires
        p + x == q + y,
        p.len() == q.len(),
    ensures
        p == q,
        x == y,
{
    assert(p =~= (p + x).take(p.len() as int));
    assert(q =~= (q + y).take(p.len() as int));
    assert(x =~= (p + x).skip(p.len() as int));
    assert(y =~= (q + y).skip(p.len() as int));
}

/// A file's stamp can be read back from the front, where a text or nothing follows.
proof fn lemma_stamp_in_front(
    s: Option<FileStamp>,
    rest_s: Seq<Seq<u8>>,
    t: Option<FileStamp>,
    rest_t: Seq<Seq<u8>>,
)
    requires
        stamp_writes(s) + rest_s == stamp_writes(t) + rest_t,
        rest_s.len() > 0 ==> starts_with_text(rest_s),
        rest_t.len() > 0 ==> starts_with_text(rest_t),
    ensures
        s == t,
        rest_s == rest_t,
{
    vstd::bytes::lemma_auto_spec_u64_to_from_le_bytes();
    vstd::bytes::lemma_auto_spec_u32_to_from_le_bytes();
    let m = stamp_writes(s).len() as int;
    let n = stamp_writes(t).len() as int;
    if m < n {
        lemma_shorter_stamp(s, rest_s, t, rest_t);
    } else if n < m {
        lemma_shorter_stamp(t, rest_t, s, rest_s);
    }
    lemma_split_equal(stamp_writes(s), rest_s, stamp_writes(t), rest_t);
    lemma_stamps_differ(s, t);
}

/// Behind a shorter stamp, what follows would not start with a text.
proof fn lemma_shorter_stamp(
    s: Option<FileStamp>,
    rest_s: Seq<Seq<u8>>,
    t: Option<FileStamp>,
    rest_t: Seq<Seq<u8>>,
)
    requires
        stamp_writes(s).len() < stamp_writes(t).len(),
        rest_s.len() > 0 ==> starts_with_text(rest_s),
        rest_t.len() > 0 ==> starts_with_text(rest_t),
    ensures
        stamp_writes(s) + rest_s != stamp_writes(t) + rest_t,
{
    vstd::bytes::lemma_auto_spec_u64_to_from_le_bytes();
    vstd::bytes::lemma_auto_spec_u32_to_from_le_bytes();
    let x = stamp_writes(s) + rest_s;
    let y = stamp_writes(t) + rest_t;
    let m = stamp_writes(s).len() as int;
    let n = stamp_writes(t).len() as int;
    if x == y {
        assert(x.len() == m + rest_s.len() && y.len() == n + rest_t.len());
        assert(x[m + 1] == rest_s[1]);
        assert(seq![0xffu8].len() == 1);
        if n == 1 {
            assert(y[1] == rest_t[0]);
        } else {
            assert(y[1] == stamp_writes(t)[1] && y[2] == stamp_writes(t)[2]);
            assert(y[1].len() == 4 && y[2].len() == 8);
        }
    }
}

/// Each file's path and stamp can be read back from the end.
proof fn lemma_file_writes_differ(
    a: Seq<(Seq<char>, Option<FileStamp>)>,
    b: Seq<(Seq<char>, Option<FileStamp>)>,
)
    requires
        file_writes(a) == file_writes(b),
    ensures
        a == b,
    decreases a.len(),
{
    let x = file_writes(a);
    let y = file_writes(b);
    if a.len() == 0 && b.len() == 0 {
        assert(a =~= b);
    } else if a.len() == 0 {
        assert(y.len() > 0);
    } else if b.len() == 0 {
        assert(x.len() > 0);
    } else {
        let p = a.last();
        let q = b.last();
        let fp = file_writes(a.drop_last());
        let fq = file_writes(b.drop_last());
        lemma_last_file(fp, p, fq, q);
        lemma_file_writes_differ(a.drop_last(), b.drop_last());
        assert(a =~= a.drop_last().push(p));
        assert(b =~= b.drop_last().push(q));
    }
}

proof fn lemma_last_file(
    fp: Seq<Seq<u8>>,
    p: (Seq<char>, Option<FileStamp>),
    fq: Seq<Seq<u8>>,
    q: (Seq<char>, Option<FileStamp>),
)
    requires
        fp + (text_writes(p.0) + stamp_writes(p.1)) == fq + (text_writes(q.0) + stamp_writes(q.1)),
    ensures
        fp == fq,
        p == q,
{
    vstd::bytes::lemma_auto_spec_u64_to_from_le_bytes();
    vstd::bytes::lemma_auto_spec_u32_to_from_le_bytes();
    let tp = text_writes(p.0) + stamp_writes(p.1);
    let tq = text_writes(q.0) + stamp_writes(q.1);
    let x = fp + tp;
    let y = fq + tq;
    let n = x.len() as int;
    assert(x[n - 1] == tp.last() && y[n - 1] == tq.last());
    assert(x[n - 2] == tp[tp.len() - 2] && y[n - 2] == tq[tq.len() - 2]);
    assert(seq![0xffu8].len() == 1);
    assert(tp.len() == tq.len()) by {
        let sp = stamp_writes(p.1).len();
        let sq = stamp_writes(q.1).len();
        if sp == 0 {
            assert(tp.last() == seq![0xffu8]);
        } else {
            assert(tp.last().len() == 8);
        }
        if sq == 0 {
            assert(tq.last() == seq![0xffu8]);
        } else {
            assert(tq.last().len() == 8);
        }
        if sp == 1 {
            assert(tp[tp.len() - 2] == seq![0xffu8]);
        } else if sp == 3 {
            assert(tp[tp.len() - 2].len() == 4);
        }
        if sq == 1 {
            assert(tq[tq.len() - 2] == seq![0xffu8]);
        } else if sq == 3 {
            assert(tq[tq.len() - 2].len() == 4);
        }
    }
    assert(fp.len() == fq.len());
    lemma_split_equal(fp, tp, fq, tq);
    lemma_split_equal(text_writes(p.0), stamp_writes(p.1), text_writes(q.0), stamp_writes(q.1));
    assert(text_writes(p.0)[0] == text_writes(q.0)[0]);
    lemma_texts_differ(p.0, q.0);
    lemma_stamps_differ(p.1, q.1);
}

/// What is written for the parts that come before any file's identity.
spec fn request_writes(a: KeyInputs) -> Seq<Seq<u8>> {
    text_writes(a.source@) + item_writes(KeyItem::Flag(a.test_mode)) + item_writes(
        KeyItem::Flag(a.debug),
    ) + item_writes(KeyItem::Choice(opt_text(a.target))) + item_writes(KeyItem::Flag(a.wat))
}

/// What is written for the parts that the environment sets.
spec fn setting_writes(a: KeyInputs) -> Seq<Seq<u8>> {
    text_writes(text_or_empty(a.backend)) + text_writes(text_or_empty(a.opt_level)) + text_writes(
        text_or_empty(a.wide_arithmetic),
    ) + text_writes(text_or_empty(a.debug_names))
}

#[verifier::spinoff_prover]
#[verifier::rlimit(50)]
proof fn lemma_writes_nest(a: KeyInputs)
    ensures
        key_writes(a.items()) == request_writes(a) + (stamp_writes(a.compiler) + (setting_writes(a)
            + (stamp_writes(a.manifest) + file_writes(
            zena_files(a.stdlib@) + zena_files(a.package@),
        )))),
{
    let e = Seq::<KeyItem>::empty();
    let r = a.request_items();
    let c = stamp_items(a.compiler);
    let s = a.setting_items();
    let m = stamp_items(a.manifest);
    let w = walk_items(a.stdlib@);
    let k = walk_items(a.package@);
    lemma_key_writes_add(r + c + s + m + w, k);
    lemma_key_writes_add(r + c + s + m, w);
    lemma_key_writes_add(r + c + s, m);
    lemma_key_writes_add(r + c, s);
    lemma_key_writes_add(r, c);
    lemma_stamp_writes(a.compiler);
    lemma_stamp_writes(a.manifest);
    lemma_walk_writes(a.stdlib@);
    lemma_walk_writes(a.package@);
    lemma_file_writes_add(zena_files(a.stdlib@), zena_files(a.package@));
    assert(key_writes(r) == request_writes(a)) by {
        assert(r =~= e.push(r[0]).push(r[1]).push(r[2]).push(r[3]).push(r[4]));
        lemma_key_writes_push(e, r[0]);
        lemma_key_writes_push(e.push(r[0]), r[1]);
        lemma_key_writes_push(e.push(r[0]).push(r[1]), r[2]);
        lemma_key_writes_push(e.push(r[0]).push(r[1]).push(r[2]), r[3]);
        lemma_key_writes_push(e.push(r[0]).push(r[1]).push(r[2]).push(r[3]), r[4]);
        assert(key_writes(e) + item_writes(r[0]) =~= text_writes(a.source@));
    }
    assert(key_writes(s) == setting_writes(a)) by {
        assert(s =~= e.push(s[0]).push(s[1]).push(s[2]).push(s[3]));
        lemma_key_writes_push(e, s[0]);
        lemma_key_writes_push(e.push(s[0]), s[1]);
        lemma_key_writes_push(e.push(s[0]).push(s[1]), s[2]);
        lemma_key_writes_push(e.push(s[0]).push(s[1]).push(s[2]), s[3]);
        assert(key_writes(e) + item_writes(s[0]) =~= item_writes(s[0]));
    }
    let fs = file_writes(zena_files(a.stdlib@));
    let fp = file_writes(zena_files(a.package@));
    assert(request_writes(a) + stamp_writes(a.compiler) + setting_writes(a) + stamp_writes(
        a.manifest,
    ) + fs + fp =~= request_writes(a) + (stamp_writes(a.compiler) + (setting_writes(a) + (
    stamp_writes(a.manifest) + (fs + fp)))));
}

/// The request can be read back from the front.
proof fn lemma_requests_differ(a: KeyInputs, x: Seq<Seq<u8>>, b: KeyInputs, y: Seq<Seq<u8>>)
    requires
        request_writes(a) + x == request_writes(b) + y,
    ensures
        x == y,
        a.source@ == b.source@,
        a.test_mode == b.test_mode,
        a.debug == b.debug,
        opt_text(a.target) == opt_text(b.target),
        a.wat == b.wat,
{
    vstd::bytes::lemma_auto_spec_u64_to_from_le_bytes();
    let ra = request_writes(a);
    let rb = request_writes(b);
    assert((ra + x)[4] == ra[4] && (rb + y)[4] == rb[4]);
    assert(ra[4] == spec_u64_to_le_bytes(
        if a.target is Some {
            1u64
        } else {
            0u64
        },
    ));
    assert(rb[4] == spec_u64_to_le_bytes(
        if b.target is Some {
            1u64
        } else {
            0u64
        },
    ));
    assert(a.target is Some == b.target is Some);
    lemma_split_equal(ra, x, rb, y);
    assert(ra[0] == encode_utf8(a.source@) && rb[0] == encode_utf8(b.source@));
    lemma_texts_differ(a.source@, b.source@);
    assert(ra[2] == seq![if a.test_mode { 1u8 } else { 0u8 }]);
    assert(rb[2] == seq![if b.test_mode { 1u8 } else { 0u8 }]);
    assert(ra[2][0] == rb[2][0]);
    assert(ra[3] == seq![if a.debug { 1u8 } else { 0u8 }]);
    assert(rb[3] == seq![if b.debug { 1u8 } else { 0u8 }]);
    assert(ra[3][0] == rb[3][0]);
    assert(ra.last() == seq![if a.wat { 1u8 } else { 0u8 }]);
    assert(rb.last() == seq![if b.wat { 1u8 } else { 0u8 }]);
    assert(ra.last()[0] == rb.last()[0]);
    if a.target is Some {
        assert(ra[5] == encode_utf8(a.target->0@) && rb[5] == encode_utf8(b.target->0@));
        lemma_texts_differ(a.target->0@, b.target->0@);
    }
}

/// Two compiles for which the same rows of bytes are written to the hasher have the same source,
/// mode, target and form, the same compiler and manifest, the same settings, and met the same Zena
/// files with the same stamps. It is the rows that tell these apart: run together into one stream,
/// the rows of a missing compiler and an eight-byte backend can read like those of a compiler
/// without a time and an empty backend.
pub proof fn equal_keys_agree(a: KeyInputs, b: KeyInputs)
    requires
        key_writes(a.items()) == key_writes(b.items()),
    ensures
        a.source@ == b.source@,
        a.test_mode == b.test_mode,
        a.debug == b.debug,
        opt_text(a.target) == opt_text(b.target),
        a.wat == b.wat,
        a.compiler == b.compiler,
        text_or_empty(a.backend) == text_or_empty(b.backend),
        text_or_empty(a.opt_level) == text_or_empty(b.opt_level),
        text_or_empty(a.wide_arithmetic) == text_or_empty(b.wide_arithmetic),
        text_or_empty(a.debug_names) == text_or_empty(b.debug_names),
        a.manifest == b.manifest,
        zena_files(a.stdlib@) + zena_files(a.package@) == zena_files(b.stdlib@) + zena_files(
            b.package@,
        ),
{
    let fa = zena_files(a.stdlib@) + zena_files(a.package@);
    let fb = zena_files(b.stdlib@) + zena_files(b.package@);
    let end_a = stamp_writes(a.manifest) + file_writes(fa);
    let end_b = stamp_writes(b.manifest) + file_writes(fb);
    let mid_a = setting_writes(a) + end_a;
    let mid_b = setting_writes(b) + end_b;
    lemma_writes_nest(a);
    lemma_writes_nest(b);
    lemma_requests_differ(
        a,
        stamp_writes(a.compiler) + mid_a,
        b,
        stamp_writes(b.compiler) + mid_b,
    );
    lemma_text_is_not_its_end(text_or_empty(a.backend));
    lemma_text_is_not_its_end(text_or_empty(b.backend));
    assert(mid_a[0] == encode_utf8(text_or_empty(a.backend)) && mid_a[1] == seq![0xffu8]);
    assert(mid_b[0] == encode_utf8(text_or_empty(b.backend)) && mid_b[1] == seq![0xffu8]);
    lemma_stamp_in_front(a.compiler, mid_a, b.compiler, mid_b);
    lemma_split_equal(setting_writes(a), end_a, setting_writes(b), end_b);
    let sa = setting_writes(a);
    let sb = setting_writes(b);
    assert(sa[2] == encode_utf8(text_or_empty(a.opt_level)));
    assert(sb[2] == encode_utf8(text_or_empty(b.opt_level)));
    assert(sa[4] == encode_utf8(text_or_empty(a.wide_arithmetic)));
    assert(sb[4] == encode_utf8(text_or_empty(b.wide_arithmetic)));
    assert(sa[6] == encode_utf8(text_or_empty(a.debug_names)));
    assert(sb[6] == encode_utf8(text_or_empty(b.debug_names)));
    lemma_texts_differ(text_or_empty(a.backend), text_or_empty(b.backend));
    lemma_texts_differ(text_or_empty(a.opt_level), text_or_empty(b.opt_level));
    lemma_texts_differ(text_or_empty(a.wide_arithmetic), text_or_empty(b.wide_arithmetic));
    lemma_texts_differ(text_or_empty(a.debug_names), text_or_empty(b.debug_names));
    lemma_file_writes_front(fa);
    lemma_file_writes_front(fb);
    lemma_stamp_in_front(a.manifest, file_writes(fa), b.manifest, file_writes(fb));
    lemma_file_writes_differ(fa, fb);
}

/// The files that count in a walk in two stretches are those of the one and then those of the
/// other.
pub proof fn walked_files_add_up(walk: Seq<WalkEntry>, more: Seq<WalkEntry>)
    ensures
        zena_files(walk + more) == zena_files(walk) + zena_files(more),
        zena_files(Seq::empty()).len() == 0,
    decreases more.len(),
{
    if more.len() == 0 {
        assert(walk + more =~= walk);
        assert(zena_files(walk) + zena_files(more) =~= zena_files(walk));
    } else {
        walked_files_add_up(walk, more.drop_last());
        assert((walk + more).drop_last() =~= walk + more.drop_last());
        assert((walk + more).last() == more.last());
        assert(zena_files(walk + more) =~= zena_files(walk) + zena_files(more));
    }
}

/// A path that a walk meets counts, with its stamp, exactly when what stands behind its last
/// separator ends in `.zena`, with something in front.
pub proof fn zena_files_are_walked(e: WalkEntry, dir: Seq<char>, n: Seq<char>)
    requires
        e.path@ == dir + n,
        is_dir_part(dir),
        n.len() > 0,
        without(n, '/'),
        n != seq!['.'],
    ensures
        zena_files(seq![e]) == (if n.len() > 5 && ".zena"@.is_suffix_of(n) {
            seq![(e.path@, e.stamp)]
        } else {
            Seq::empty()
        }),
{
    reveal_strlit(".zena");
    let ext = zena_extension();
    assert(seq!['.'] + ext =~= ".zena"@);
    crate::path::extensions_go_by_the_end(dir, n, ext);
    assert(seq![e].drop_last() =~= Seq::<WalkEntry>::empty());
    assert(zena_files(seq![e].drop_last()) =~= Seq::<(Seq<char>, Option<FileStamp>)>::empty());
    assert(zena_files(seq![e]) =~= if n.len() > 5 && ".zena"@.is_suffix_of(n) {
        seq![(e.path@, e.stamp)]
    } else {
        Seq::empty()
    });
}

} // verus!
