//! Digests of packages: what a certificate is bound to.

use vstd::prelude::*;
use vstd::utf8::encode_utf8;
use crate::inference::contract::strings_view;
use crate::inference::registry::manifest::{
    valid_model, EngineFacts, KindFacts, ManifestCaps, PackageEngineKind, PackageEngineManifest, PackageFacts,
    PackageManifest, PackageModelKind, PackageModelManifest, PackageTranslatorManifest, ValidatedPackageEngine,
};
use crate::inference::registry::names::{
    is_transient_dir, is_transient_dir_name, is_transient_file, is_transient_file_name, join_parts, parts, path_parts, slashed,
    CERT_FILE_NAME, PACKAGE_CERT_DIR_NAME, PACKAGE_MANIFEST_FILE_NAME,
};
use crate::inference::request::{bytes_digest, digest_bytes};
use crate::inference::session::{texts_json, texts_to_json};
use crate::json::{key_less, less_key, members_view, number, written, Json, JsonView};
use crate::text::{owned, same};

verus! {

/// A file of a package: its path from the package's directory, and its contents or why they cannot
/// be read.
#[derive(Debug)]
pub struct PackageFile {
    pub path: String,
    pub bytes: Result<Vec<u8>, String>,
}

/// Bytes or a reason, as facts.
pub open spec fn bytes_result(r: Result<Vec<u8>, String>) -> Result<Seq<u8>, Seq<char>> {
    match r {
        Ok(b) => Ok(b@),
        Err(e) => Err(e@),
    }
}

/// A file, as facts.
pub ghost struct FileFacts {
    pub path: Seq<char>,
    pub bytes: Result<Seq<u8>, Seq<char>>,
}

impl View for PackageFile {
    type V = FileFacts;

    open spec fn view(&self) -> FileFacts {
        FileFacts { path: self.path@, bytes: bytes_result(self.bytes) }
    }
}

pub open spec fn files_view(files: Seq<PackageFile>) -> Seq<FileFacts> {
    Seq::new(files.len(), |i: int| files[i]@)
}

// Which files count.

/// None of the first `n` parts is a directory that comes and goes.
pub open spec fn in_lasting_dirs(p: Seq<Seq<char>>) -> bool {
    forall|i: int| 0 <= i < p.len() - 1 ==> !is_transient_dir_name(#[trigger] p[i])
}

/// A file that lasts: neither it nor a directory above it comes and goes.
pub open spec fn is_lasting(path: Seq<char>) -> bool {
    let p = parts(path);
    in_lasting_dirs(p) && (p.len() > 0 ==> !is_transient_file_name(p.last()))
}

/// A file that a plugin's digest covers.
pub open spec fn in_plugin(path: Seq<char>) -> bool {
    is_lasting(path) && slashed(parts(path)) != CERT_FILE_NAME@
}

/// The directories of models, which belong to each model and not to the package.
pub open spec fn is_model_dir(name: Seq<char>) -> bool {
    name == "4p"@ || name == "3p"@ || name == "models.d"@ || name == "weights"@
}

/// A file that the digests of all models of a package cover.
pub open spec fn is_shared(path: Seq<char>) -> bool {
    let p = parts(path);
    &&& in_plugin(path)
    &&& p.len() > 1 ==> !is_model_dir(p[0])
    &&& slashed(p) != PACKAGE_MANIFEST_FILE_NAME@
    &&& p.len() > 1 ==> p[0] != PACKAGE_CERT_DIR_NAME@
}

fn lasting_parts(p: &Vec<String>) -> (r: bool)
    ensures
        r == (in_lasting_dirs(strings_view(p@)) && (strings_view(p@).len() > 0 ==> !is_transient_file_name(
            strings_view(p@).last(),
        ))),
{
    let ghost all = strings_view(p@);
    assert(all.len() == p@.len());
    if p.len() == 0 {
        return true;
    }
    let mut i: usize = 0;
    while i < p.len() - 1
        invariant
            i <= p@.len() - 1,
            all == strings_view(p@),
            all.len() == p@.len(),
            p@.len() > 0,
            forall|j: int| 0 <= j < i ==> !is_transient_dir_name(#[trigger] all[j]),
        decreases p@.len() - i,
    {
        assert(all[i as int] == p@[i as int]@);
        if is_transient_dir(p[i].as_str()) {
            return false;
        }
        i = i + 1;
    }
    assert(all.last() == p@[p@.len() - 1]@);
    !is_transient_file(p[p.len() - 1].as_str())
}

/// Whether a plugin's digest covers a file.
pub fn plugin_covers(path: &str) -> (r: bool)
    ensures
        r == in_plugin(path@),
{
    let p = path_parts(path);
    lasting_parts(&p) && !same(join_parts(&p).as_str(), CERT_FILE_NAME)
}

/// Whether the digests of all models of a package cover a file.
pub fn package_shares(path: &str) -> (r: bool)
    ensures
        r == is_shared(path@),
{
    let p = path_parts(path);
    let ghost all = strings_view(p@);
    assert(all.len() == p@.len());
    if !plugin_covers(path) || same(join_parts(&p).as_str(), PACKAGE_MANIFEST_FILE_NAME) {
        return false;
    }
    if p.len() <= 1 {
        return true;
    }
    assert(all[0] == p@[0]@);
    let top = p[0].as_str();
    !(same(top, "4p") || same(top, "3p") || same(top, "models.d") || same(top, "weights") || same(
        top,
        PACKAGE_CERT_DIR_NAME,
    ))
}

// Order.

/// A file among ordered ones, by its path.
pub open spec fn placed(s: Seq<FileFacts>, f: FileFacts) -> Seq<FileFacts>
    decreases s.len(),
{
    if s.len() == 0 {
        seq![f]
    } else if key_less(f.path, s[0].path) {
        seq![f] + s
    } else {
        seq![s[0]] + placed(s.drop_first(), f)
    }
}

/// The files that count, ordered by path.
pub open spec fn ordered(s: Seq<FileFacts>, shared: bool) -> Seq<FileFacts>
    decreases s.len(),
{
    if s.len() == 0 {
        s
    } else {
        let rest = ordered(s.drop_first(), shared);
        if counts(s[0].path, shared) { placed(rest, s[0]) } else { rest }
    }
}

pub open spec fn counts(path: Seq<char>, shared: bool) -> bool {
    if shared { is_shared(path) } else { in_plugin(path) }
}

/// A file that does not count makes no difference, wherever it is listed.
pub proof fn passing_files_make_no_difference(a: Seq<FileFacts>, f: FileFacts, b: Seq<FileFacts>, shared: bool)
    requires
        !counts(f.path, shared),
    ensures
        ordered(a + seq![f] + b, shared) == ordered(a + b, shared),
    decreases a.len(),
{
    let with = a + seq![f] + b;
    if a.len() == 0 {
        assert(with[0] == f);
        assert(with.drop_first() =~= b);
        assert(a + b =~= b);
    } else {
        passing_files_make_no_difference(a.drop_first(), f, b, shared);
        assert(with.drop_first() =~= a.drop_first() + seq![f] + b);
        assert((a + b).drop_first() =~= a.drop_first() + b);
        assert((a + b)[0] == a[0] && with[0] == a[0]);
    }
}

fn place(v: &mut Vec<PackageFile>, f: PackageFile)
    ensures
        files_view(final(v)@) == placed(files_view(old(v)@), f@),
{
    let ghost before = files_view(v@);
    let mut i: usize = 0;
    assert(before.skip(0) =~= before);
    assert(before.take(0) + placed(before, f@) =~= placed(before, f@));
    while i < v.len() && !less_key(f.path.as_str(), v[i].path.as_str())
        invariant
            i <= v@.len(),
            before == files_view(v@),
            placed(before, f@) == before.take(i as int) + placed(before.skip(i as int), f@),
        ensures
            i < v@.len() ==> key_less(f@.path, v@[i as int]@.path),
        decreases v@.len() - i,
    {
        let ghost rest = before.skip(i as int);
        assert(rest[0] == v@[i as int]@);
        assert(rest.drop_first() =~= before.skip(i + 1));
        assert(before.take(i as int) + (seq![rest[0]] + placed(before.skip(i + 1), f@)) =~= before.take(i + 1) + placed(
            before.skip(i + 1),
            f@,
        ));
        i = i + 1;
    }
    let ghost rest = before.skip(i as int);
    assert(i < v@.len() ==> rest[0] == v@[i as int]@);
    assert(i == v@.len() ==> rest =~= Seq::empty());
    v.insert(i, f);
    assert(files_view(v@) =~= before.take(i as int) + (seq![f@] + rest));
    assert(i == before.len() ==> seq![f@] + rest =~= seq![f@]);
}

/// The files that count, ordered by path.
fn order_files(files: Vec<PackageFile>, shared: bool) -> (r: Vec<PackageFile>)
    ensures
        files_view(r@) == ordered(files_view(files@), shared),
{
    let ghost all = files_view(files@);
    let mut left = files;
    let mut out: Vec<PackageFile> = Vec::new();
    assert(files_view(out@) =~= ordered(all.skip(all.len() as int), shared));
    while left.len() > 0
        invariant
            left@.len() <= all.len(),
            files_view(left@) == all.take(left@.len() as int),
            files_view(out@) == ordered(all.skip(left@.len() as int), shared),
        decreases left@.len(),
    {
        let ghost n = left@.len() as int;
        let ghost before = left@;
        match left.pop() {
            Some(f) => {
                assert(files_view(before)[n - 1] == f@);
                assert(all.take(n)[n - 1] == all[n - 1]);
                assert(all.skip(n - 1)[0] == f@);
                assert(all.skip(n - 1).drop_first() =~= all.skip(n));
                assert(files_view(left@) =~= all.take(n - 1));
                let keep = if shared { package_shares(f.path.as_str()) } else { plugin_covers(f.path.as_str()) };
                if keep {
                    place(&mut out, f);
                }
            },
            None => {},
        }
    }
    assert(all.skip(0) =~= all);
    out
}

// Framing.

pub open spec fn zero() -> Seq<u8> {
    seq![0u8]
}

pub open spec fn ff() -> Seq<u8> {
    seq![255u8]
}

/// A file of a plugin: path, zero, contents and a closing byte.
pub open spec fn plain_frame(path: Seq<char>, bytes: Seq<u8>) -> Seq<u8> {
    encode_utf8(path) + zero() + bytes + ff()
}

/// The files of a plugin, or why the first of them that cannot be read cannot.
pub open spec fn plugin_frame(s: Seq<FileFacts>) -> Result<Seq<u8>, Seq<char>>
    decreases s.len(),
{
    if s.len() == 0 {
        Ok(Seq::empty())
    } else {
        match plugin_frame(s.drop_last()) {
            Err(e) => Err(e),
            Ok(f) => match s.last().bytes {
                Err(e) => Err(e),
                Ok(b) => Ok(f + plain_frame(s.last().path, b)),
            },
        }
    }
}

/// A labelled file.
pub open spec fn file_frame(label: Seq<char>, path: Seq<char>, bytes: Seq<u8>) -> Seq<u8> {
    encode_utf8(label) + zero() + encode_utf8(path) + zero() + bytes + ff()
}

/// A labelled text.
pub open spec fn text_frame(label: Seq<char>, text: Seq<char>) -> Seq<u8> {
    encode_utf8(label) + zero() + encode_utf8(text) + ff()
}

/// The shared files of a package, or why the first of them that cannot be read cannot.
pub open spec fn shared_frame(s: Seq<FileFacts>) -> Result<Seq<u8>, Seq<char>>
    decreases s.len(),
{
    if s.len() == 0 {
        Ok(Seq::empty())
    } else {
        match shared_frame(s.drop_last()) {
            Err(e) => Err(e),
            Ok(f) => match s.last().bytes {
                Err(e) => Err(e),
                Ok(b) => Ok(f + file_frame("shared"@, s.last().path, b)),
            },
        }
    }
}

proof fn lemma_unreadable_plugin(s: Seq<FileFacts>, n: int)
    requires
        0 <= n <= s.len(),
        plugin_frame(s.take(n)) is Err,
    ensures
        plugin_frame(s) == plugin_frame(s.take(n)),
    decreases s.len() - n,
{
    if n == s.len() {
        assert(s.take(n) =~= s);
    } else {
        assert(s.take(n + 1).drop_last() =~= s.take(n));
        lemma_unreadable_plugin(s, n + 1);
    }
}

proof fn lemma_unreadable_shared(s: Seq<FileFacts>, n: int)
    requires
        0 <= n <= s.len(),
        shared_frame(s.take(n)) is Err,
    ensures
        shared_frame(s) == shared_frame(s.take(n)),
    decreases s.len() - n,
{
    if n == s.len() {
        assert(s.take(n) =~= s);
    } else {
        assert(s.take(n + 1).drop_last() =~= s.take(n));
        lemma_unreadable_shared(s, n + 1);
    }
}

fn push_bytes(out: &mut Vec<u8>, b: &[u8])
    ensures
        final(out)@ == old(out)@ + b@,
{
    let ghost before = out@;
    let mut i: usize = 0;
    assert(out@ =~= before + b@.take(0));
    while i < b.len()
        invariant
            i <= b@.len(),
            out@ == before + b@.take(i as int),
        decreases b@.len() - i,
    {
        out.push(b[i]);
        i = i + 1;
        assert(out@ =~= before + b@.take(i as int));
    }
    assert(b@.take(i as int) =~= b@);
}

fn push_text(out: &mut Vec<u8>, s: &str)
    ensures
        final(out)@ == old(out)@ + encode_utf8(s@),
{
    push_bytes(out, s.as_bytes());
}

fn push_byte(out: &mut Vec<u8>, b: u8)
    ensures
        final(out)@ == old(out)@ + seq![b],
{
    let ghost before = out@;
    out.push(b);
    assert(out@ =~= before + seq![b]);
}

fn push_file(out: &mut Vec<u8>, label: &str, path: &str, bytes: &Vec<u8>)
    ensures
        final(out)@ == old(out)@ + file_frame(label@, path@, bytes@),
{
    let ghost before = out@;
    push_text(out, label);
    push_byte(out, 0);
    push_text(out, path);
    push_byte(out, 0);
    push_bytes(out, bytes.as_slice());
    push_byte(out, 255);
    assert(out@ =~= before + file_frame(label@, path@, bytes@));
}

fn push_labelled(out: &mut Vec<u8>, label: &str, text: &str)
    ensures
        final(out)@ == old(out)@ + text_frame(label@, text@),
{
    let ghost before = out@;
    push_text(out, label);
    push_byte(out, 0);
    push_text(out, text);
    push_byte(out, 255);
    assert(out@ =~= before + text_frame(label@, text@));
}

/// The digest of a plugin: of its lasting files, ordered by path; or why one of them cannot be
/// read.
pub open spec fn plugin_digest(files: Seq<FileFacts>) -> Result<Seq<char>, Seq<char>> {
    match plugin_frame(ordered(files, false)) {
        Err(e) => Err(e),
        Ok(f) => Ok(bytes_digest(f)),
    }
}

/// A digest or a reason, as facts.
pub open spec fn digest_result(r: Result<String, String>) -> Result<Seq<char>, Seq<char>> {
    match r {
        Ok(s) => Ok(s@),
        Err(e) => Err(e@),
    }
}

fn frame_plugin(sorted: &Vec<PackageFile>) -> (r: Result<Vec<u8>, String>)
    ensures
        bytes_result(r) == plugin_frame(files_view(sorted@)),
{
    let ghost all = files_view(sorted@);
    let mut out: Vec<u8> = Vec::new();
    let mut i: usize = 0;
    assert(out@ =~= Seq::empty());
    while i < sorted.len()
        invariant
            i <= sorted@.len(),
            all == files_view(sorted@),
            plugin_frame(all.take(i as int)) == Ok::<Seq<u8>, Seq<char>>(out@),
        decreases sorted@.len() - i,
    {
        assert(all.take(i + 1).drop_last() =~= all.take(i as int));
        assert(all.take(i + 1).last() == sorted@[i as int]@);
        match &sorted[i].bytes {
            Ok(b) => {
                let ghost before = out@;
                push_text(&mut out, sorted[i].path.as_str());
                push_byte(&mut out, 0);
                push_bytes(&mut out, b.as_slice());
                push_byte(&mut out, 255);
                assert(out@ =~= before + plain_frame(sorted@[i as int].path@, b@));
            },
            Err(e) => {
                proof { lemma_unreadable_plugin(all, i + 1); }
                return Err(e.clone());
            },
        }
        i = i + 1;
    }
    assert(all.take(i as int) =~= all);
    Ok(out)
}

/// The digest of a plugin.
pub fn package_hash(files: Vec<PackageFile>) -> (r: Result<String, String>)
    ensures
        digest_result(r) == plugin_digest(files_view(files@)),
{
    match frame_plugin(&order_files(files, false)) {
        Ok(f) => Ok(digest_bytes(f.as_slice())),
        Err(e) => Err(e),
    }
}

// Manifests in digests.

pub open spec fn option_json(s: Option<String>) -> JsonView {
    match s {
        Some(t) => JsonView::Text(t@),
        None => JsonView::Null,
    }
}

pub open spec fn caps_json(c: Option<ManifestCaps>) -> JsonView {
    match c {
        None => JsonView::Null,
        Some(c) => JsonView::Object(
            seq![
                ("supports_incremental"@, JsonView::Bool(c.supports_incremental)),
                ("returns_ranked_actions"@, JsonView::Bool(c.returns_ranked_actions)),
            ],
        ),
    }
}

pub open spec fn translator_json(t: PackageTranslatorManifest) -> JsonView {
    JsonView::Object(
        seq![
            ("exe"@, option_json(t.exe)),
            ("py"@, option_json(t.py)),
            ("python"@, option_json(t.python)),
            ("args"@, texts_json(strings_view(t.args@))),
        ],
    )
}

pub open spec fn engine_json(e: Option<PackageEngineManifest>) -> JsonView {
    match e {
        None => JsonView::Null,
        Some(e) => JsonView::Object(
            seq![
                ("kind"@, JsonView::Text(e.kind@)),
                ("location"@, JsonView::Text(e.location@)),
                ("protocol"@, JsonView::Text(e.protocol@)),
                ("args"@, texts_json(strings_view(e.args@))),
            ],
        ),
    }
}

pub open spec fn model_json(m: PackageModelManifest) -> JsonView {
    JsonView::Object(
        seq![
            ("id"@, JsonView::Text(m.id@)),
            ("display_name"@, JsonView::Text(m.display_name@)),
            ("rule_line"@, JsonView::Text(m.rule_line@)),
            ("kind"@, JsonView::Text(m.kind@)),
            ("path"@, option_json(m.path)),
            ("remote_backend"@, option_json(m.remote_backend)),
            ("weight_file"@, option_json(m.weight_file)),
            ("remote_model"@, option_json(m.remote_model)),
            ("engine"@, engine_json(m.engine)),
            ("caps"@, caps_json(m.caps)),
            ("args"@, texts_json(strings_view(m.args@))),
        ],
    )
}

/// What a model's digest covers of the manifest.
pub open spec fn manifest_json(p: PackageManifest, m: PackageModelManifest) -> JsonView {
    JsonView::Object(
        seq![
            ("schema"@, number(p.schema as int)),
            ("package_id"@, JsonView::Text(p.package_id@)),
            ("protocol"@, JsonView::Text(p.protocol@)),
            ("riichi_style"@, JsonView::Text(p.riichi_style@)),
            ("translator"@, translator_json(p.translator)),
            ("caps"@, caps_json(p.caps)),
            ("model"@, model_json(m)),
        ],
    )
}

fn option_to_json(s: &Option<String>) -> (r: Json)
    ensures
        r@ == option_json(*s),
{
    match s {
        Some(t) => Json::text(t.as_str()),
        None => Json::Null,
    }
}

fn put(v: &mut Vec<(String, Json)>, key: &str, j: Json)
    ensures
        members_view(final(v)@) == members_view(old(v)@).push((key@, j@)),
{
    let ghost before = v@;
    v.push((owned(key), j));
    assert(members_view(v@) =~= members_view(before).push((key@, j@)));
}

fn members() -> (v: Vec<(String, Json)>)
    ensures
        members_view(v@) == Seq::<(Seq<char>, JsonView)>::empty(),
{
    let v: Vec<(String, Json)> = Vec::new();
    assert(members_view(v@) =~= Seq::empty());
    v
}

fn caps_to_json(c: &Option<ManifestCaps>) -> (r: Json)
    ensures
        r@ == caps_json(*c),
{
    match c {
        None => Json::Null,
        Some(c) => {
            let mut v = members();
            put(&mut v, "supports_incremental", Json::Bool(c.supports_incremental));
            put(&mut v, "returns_ranked_actions", Json::Bool(c.returns_ranked_actions));
            let r = Json::record(v);
            assert(r@->Object_0 =~= caps_json(Some(*c))->Object_0);
            r
        },
    }
}

fn translator_to_json(t: &PackageTranslatorManifest) -> (r: Json)
    ensures
        r@ == translator_json(*t),
{
    let mut v = members();
    put(&mut v, "exe", option_to_json(&t.exe));
    put(&mut v, "py", option_to_json(&t.py));
    put(&mut v, "python", option_to_json(&t.python));
    put(&mut v, "args", texts_to_json(&t.args));
    let r = Json::record(v);
    assert(r@->Object_0 =~= translator_json(*t)->Object_0);
    r
}

fn engine_to_json(e: &Option<PackageEngineManifest>) -> (r: Json)
    ensures
        r@ == engine_json(*e),
{
    match e {
        None => Json::Null,
        Some(x) => {
            let mut v = members();
            put(&mut v, "kind", Json::text(x.kind.as_str()));
            put(&mut v, "location", Json::text(x.location.as_str()));
            put(&mut v, "protocol", Json::text(x.protocol.as_str()));
            put(&mut v, "args", texts_to_json(&x.args));
            let r = Json::record(v);
            assert(r@->Object_0 =~= engine_json(*e)->Object_0);
            r
        },
    }
}

fn model_to_json(m: &PackageModelManifest) -> (r: Json)
    ensures
        r@ == model_json(*m),
{
    let mut v = members();
    put(&mut v, "id", Json::text(m.id.as_str()));
    put(&mut v, "display_name", Json::text(m.display_name.as_str()));
    put(&mut v, "rule_line", Json::text(m.rule_line.as_str()));
    put(&mut v, "kind", Json::text(m.kind.as_str()));
    put(&mut v, "path", option_to_json(&m.path));
    put(&mut v, "remote_backend", option_to_json(&m.remote_backend));
    put(&mut v, "weight_file", option_to_json(&m.weight_file));
    put(&mut v, "remote_model", option_to_json(&m.remote_model));
    put(&mut v, "engine", engine_to_json(&m.engine));
    put(&mut v, "caps", caps_to_json(&m.caps));
    put(&mut v, "args", texts_to_json(&m.args));
    let r = Json::record(v);
    assert(r@->Object_0 =~= model_json(*m)->Object_0);
    r
}

fn manifest_to_json(p: &PackageManifest, m: &PackageModelManifest) -> (r: Json)
    ensures
        r@ == manifest_json(*p, *m),
{
    let mut v = members();
    put(&mut v, "schema", Json::UInt(p.schema as u64));
    put(&mut v, "package_id", Json::text(p.package_id.as_str()));
    put(&mut v, "protocol", Json::text(p.protocol.as_str()));
    put(&mut v, "riichi_style", Json::text(p.riichi_style.as_str()));
    put(&mut v, "translator", translator_to_json(&p.translator));
    put(&mut v, "caps", caps_to_json(&p.caps));
    put(&mut v, "model", model_to_json(m));
    let r = Json::record(v);
    assert(r@->Object_0 =~= manifest_json(*p, *m)->Object_0);
    r
}

// Digests of models.

/// A file is among those of the package.
pub open spec fn holds_file(files: Seq<FileFacts>, path: Seq<char>) -> bool {
    exists|i: int| 0 <= i < files.len() && (#[trigger] files[i]).path == path
}

/// The contents of a file of the package, or why they cannot be read.
pub open spec fn contents(files: Seq<FileFacts>, path: Seq<char>) -> Result<Seq<u8>, Seq<char>>
    recommends
        holds_file(files, path),
    decreases files.len(),
{
    if files.len() == 0 {
        arbitrary()
    } else if files[0].path == path {
        files[0].bytes
    } else {
        contents(files.drop_first(), path)
    }
}

/// A labelled file of the package, or why it cannot be read. The path is framed as it was written;
/// the file is found by the path without detours.
pub open spec fn named_frame(files: Seq<FileFacts>, label: Seq<char>, path: Seq<char>, at: Seq<char>) -> Result<Seq<u8>, Seq<char>> {
    match contents(files, at) {
        Ok(b) => Ok(file_frame(label, path, b)),
        Err(e) => Err(e),
    }
}

/// Where the file of an engine is.
pub open spec fn engine_file(e: EngineFacts) -> Seq<char> {
    slashed(parts(e.location))
}

/// The files that a model names are among those of the package.
pub open spec fn holds_named(files: Seq<FileFacts>, kind: KindFacts) -> bool {
    match kind {
        KindFacts::Onnx { path } => holds_file(files, path),
        KindFacts::Remote { .. } => true,
        KindFacts::RuntimeLocal { weight_file, engine } => holds_file(files, weight_file) && holds_engine(files, engine),
        KindFacts::RuntimeRemote { engine, .. } => holds_engine(files, engine),
    }
}

/// The file of an engine, if it is one, is among those of the package.
pub open spec fn holds_engine(files: Seq<FileFacts>, e: EngineFacts) -> bool {
    e.kind == PackageEngineKind::Local ==> holds_file(files, engine_file(e))
}

/// What a model's digest covers of its engine.
pub open spec fn engine_frame(files: Seq<FileFacts>, e: EngineFacts) -> Result<Seq<u8>, Seq<char>> {
    let rest = text_frame("engine_protocol"@, e.protocol) + text_frame("engine_args"@, written(texts_json(e.args)));
    match e.kind {
        PackageEngineKind::Local => match named_frame(files, "engine"@, e.location, engine_file(e)) {
            Ok(f) => Ok(f + rest),
            Err(t) => Err(t),
        },
        PackageEngineKind::Remote => Ok(text_frame("remote_engine"@, e.location) + rest),
    }
}

/// What a model's digest covers of where it runs.
pub open spec fn kind_frame(files: Seq<FileFacts>, kind: KindFacts) -> Result<Seq<u8>, Seq<char>> {
    match kind {
        KindFacts::Onnx { path } => named_frame(files, "model"@, path, path),
        KindFacts::Remote { backend } => Ok(text_frame("remote"@, backend)),
        KindFacts::RuntimeLocal { weight_file, engine } => match engine_frame(files, engine) {
            Err(e) => Err(e),
            Ok(f) => match named_frame(files, "weight"@, weight_file, weight_file) {
                Err(e) => Err(e),
                Ok(w) => Ok(f + w),
            },
        },
        KindFacts::RuntimeRemote { remote_model, engine } => match engine_frame(files, engine) {
            Err(e) => Err(e),
            Ok(f) => Ok(f + text_frame("remote_model"@, remote_model)),
        },
    }
}

/// What a model's digest covers of its package.
pub open spec fn package_frame(p: PackageManifest, m: PackageModelManifest, shared: Seq<u8>) -> Seq<u8> {
    encode_utf8("flya-package-v2-model-runtime"@) + zero() + text_frame("manifest"@, written(manifest_json(p, m))) + shared
}

/// The digest of a model: of the manifest, the shared files and what the model runs on; or why a
/// file of these cannot be read.
pub open spec fn model_digest(p: PackageManifest, m: PackageModelManifest, kind: KindFacts, files: Seq<FileFacts>) -> Result<
    Seq<char>,
    Seq<char>,
> {
    match shared_frame(ordered(files, true)) {
        Err(e) => Err(e),
        Ok(shared) => match kind_frame(files, kind) {
            Err(e) => Err(e),
            Ok(f) => Ok(bytes_digest(package_frame(p, m, shared) + f)),
        },
    }
}

fn find_file<'a>(files: &'a Vec<PackageFile>, path: &str) -> (r: &'a PackageFile)
    requires
        holds_file(files_view(files@), path@),
    ensures
        contents(files_view(files@), path@) == bytes_result(r.bytes),
{
    let ghost all = files_view(files@);
    let ghost n = choose|n: int| 0 <= n < all.len() && (#[trigger] all[n]).path == path@;
    let len = files.len();
    let mut i: usize = 0;
    assert(all.skip(0) =~= all);
    assert(all[n] == files@[n]@);
    while !same(files[i].path.as_str(), path)
        invariant
            i <= n < files@.len(),
            len == files@.len(),
            all == files_view(files@),
            files@[n].path@ == path@,
            contents(all, path@) == contents(all.skip(i as int), path@),
        decreases n - i,
    {
        assert(all.skip(i as int)[0] == files@[i as int]@);
        assert(all.skip(i as int).drop_first() =~= all.skip(i + 1));
        assert(i != n);
        i = i + 1;
    }
    assert(all.skip(i as int)[0] == files@[i as int]@);
    &files[i]
}

fn frame_file(files: &Vec<PackageFile>, label: &str, path: &str, at: &str) -> (r: Result<Vec<u8>, String>)
    requires
        holds_file(files_view(files@), at@),
    ensures
        bytes_result(r) == named_frame(files_view(files@), label@, path@, at@),
{
    match &find_file(files, at).bytes {
        Ok(b) => {
            let mut out: Vec<u8> = Vec::new();
            push_file(&mut out, label, path, b);
            assert(out@ =~= file_frame(label@, path@, b@));
            Ok(out)
        },
        Err(e) => Err(e.clone()),
    }
}

fn frame_engine(files: &Vec<PackageFile>, e: &ValidatedPackageEngine) -> (r: Result<Vec<u8>, String>)
    requires
        holds_engine(files_view(files@), e@),
    ensures
        bytes_result(r) == engine_frame(files_view(files@), e@),
{
    let args = texts_to_json(&e.args).write();
    let ghost rest = text_frame("engine_protocol"@, e@.protocol) + text_frame("engine_args"@, written(texts_json(e@.args)));
    let mut out = match e.kind {
        PackageEngineKind::Local => {
            let at = join_parts(&path_parts(e.location.as_str()));
            match frame_file(files, "engine", e.location.as_str(), at.as_str()) {
                Ok(f) => f,
                Err(t) => {
                    return Err(t);
                },
            }
        },
        PackageEngineKind::Remote => {
            let mut f: Vec<u8> = Vec::new();
            push_labelled(&mut f, "remote_engine", e.location.as_str());
            assert(f@ =~= text_frame("remote_engine"@, e.location@));
            f
        },
    };
    let ghost head = out@;
    push_labelled(&mut out, "engine_protocol", e.protocol.as_str());
    push_labelled(&mut out, "engine_args", args.as_str());
    assert(out@ =~= head + rest);
    Ok(out)
}

fn frame_kind(files: &Vec<PackageFile>, kind: &PackageModelKind) -> (r: Result<Vec<u8>, String>)
    requires
        holds_named(files_view(files@), kind@),
    ensures
        bytes_result(r) == kind_frame(files_view(files@), kind@),
{
    match kind {
        PackageModelKind::Onnx { path } => frame_file(files, "model", path.as_str(), path.as_str()),
        PackageModelKind::Remote { backend } => {
            let mut out: Vec<u8> = Vec::new();
            push_labelled(&mut out, "remote", backend.as_str());
            assert(out@ =~= text_frame("remote"@, backend@));
            Ok(out)
        },
        PackageModelKind::RuntimeLocal { weight_file, engine } => match frame_engine(files, engine) {
            Err(e) => Err(e),
            Ok(f) => match frame_file(files, "weight", weight_file.as_str(), weight_file.as_str()) {
                Err(e) => Err(e),
                Ok(w) => {
                    let mut out = f;
                    push_bytes(&mut out, w.as_slice());
                    Ok(out)
                },
            },
        },
        PackageModelKind::RuntimeRemote { remote_model, engine } => match frame_engine(files, engine) {
            Err(e) => Err(e),
            Ok(f) => {
                let mut out = f;
                push_labelled(&mut out, "remote_model", remote_model.as_str());
                Ok(out)
            },
        },
    }
}

fn frame_shared(sorted: &Vec<PackageFile>) -> (r: Result<Vec<u8>, String>)
    ensures
        bytes_result(r) == shared_frame(files_view(sorted@)),
{
    let ghost all = files_view(sorted@);
    let mut out: Vec<u8> = Vec::new();
    let mut i: usize = 0;
    assert(out@ =~= Seq::empty());
    while i < sorted.len()
        invariant
            i <= sorted@.len(),
            all == files_view(sorted@),
            shared_frame(all.take(i as int)) == Ok::<Seq<u8>, Seq<char>>(out@),
        decreases sorted@.len() - i,
    {
        assert(all.take(i + 1).drop_last() =~= all.take(i as int));
        assert(all.take(i + 1).last() == sorted@[i as int]@);
        match &sorted[i].bytes {
            Ok(b) => {
                push_file(&mut out, "shared", sorted[i].path.as_str(), b);
            },
            Err(e) => {
                proof { lemma_unreadable_shared(all, i + 1); }
                return Err(e.clone());
            },
        }
        i = i + 1;
    }
    assert(all.take(i as int) =~= all);
    Ok(out)
}

/// The digest of a model. The files that the model names have to be among those given, read or not.
pub fn package_model_hash(manifest: &PackageManifest, model: &PackageModelManifest, kind: &PackageModelKind, files: Vec<PackageFile>) -> (r: Result<
    String,
    String,
>)
    requires
        holds_named(files_view(files@), kind@),
    ensures
        digest_result(r) == model_digest(*manifest, *model, kind@, files_view(files@)),
{
    let tail = frame_kind(&files, kind);
    let shared = match frame_shared(&order_files(files, true)) {
        Ok(f) => f,
        Err(e) => {
            return Err(e);
        },
    };
    let rest = match tail {
        Ok(f) => f,
        Err(e) => {
            return Err(e);
        },
    };
    let text = manifest_to_json(manifest, model).write();
    let mut out: Vec<u8> = Vec::new();
    push_text(&mut out, "flya-package-v2-model-runtime");
    push_byte(&mut out, 0);
    push_labelled(&mut out, "manifest", text.as_str());
    push_bytes(&mut out, shared.as_slice());
    assert(out@ =~= package_frame(*manifest, *model, shared@));
    push_bytes(&mut out, rest.as_slice());
    Ok(digest_bytes(out.as_slice()))
}

/// A model that meets the rules names files of its package alone.
pub proof fn valid_models_name_files(
    dir: Seq<char>,
    package: PackageFacts,
    m: PackageModelManifest,
    listing: Seq<Seq<char>>,
    files: Seq<FileFacts>,
)
    requires
        valid_model(dir, package, m, listing) is Ok,
        forall|path: Seq<char>| #[trigger] listing.contains(path) ==> holds_file(files, path),
    ensures
        holds_named(files, valid_model(dir, package, m, listing)->Ok_0.kind),
{
}

} // verus!
