//! Names and relative paths of packages.

use vstd::prelude::*;
use vstd::string::*;
use crate::inference::contract::{strings_view, RuleLine};
use crate::inference::parse::starts_with;
use crate::text::{chars_of, from_chars, join2, join3, owned, same, trim, trimmed};

verus! {

/// The certificate of a plugin, in its directory.
pub const CERT_FILE_NAME: &'static str = ".flya-cert.json";
/// The manifest of a package.
pub const PACKAGE_MANIFEST_FILE_NAME: &'static str = "flya-package.toml";
/// The directory of a package's certificates.
pub const PACKAGE_CERT_DIR_NAME: &'static str = ".flya-certs";

// Pieces of a path.

/// The pieces of a text between slashes.
pub open spec fn pieces(s: Seq<char>) -> Seq<Seq<char>>
    decreases s.len(),
{
    if s.len() == 0 {
        seq![Seq::empty()]
    } else {
        let rest = pieces(s.drop_last());
        if s.last() == '/' {
            rest.push(Seq::empty())
        } else {
            rest.drop_last().push(rest.last().push(s.last()))
        }
    }
}

/// Pieces that name something: empty ones and `.` are passed over.
pub open spec fn proper(p: Seq<Seq<char>>) -> Seq<Seq<char>>
    decreases p.len(),
{
    if p.len() == 0 {
        Seq::empty()
    } else if p.last().len() == 0 || p.last() == "."@ {
        proper(p.drop_last())
    } else {
        proper(p.drop_last()).push(p.last())
    }
}

/// The parts of a path.
pub open spec fn parts(s: Seq<char>) -> Seq<Seq<char>> {
    proper(pieces(s))
}

/// Parts with slashes between them.
pub open spec fn slashed(p: Seq<Seq<char>>) -> Seq<char>
    decreases p.len(),
{
    if p.len() == 0 {
        Seq::empty()
    } else if p.len() == 1 {
        p[0]
    } else {
        slashed(p.drop_last()) + "/"@ + p.last()
    }
}

proof fn lemma_pieces_nonempty(s: Seq<char>)
    ensures
        pieces(s).len() >= 1,
    decreases s.len(),
{
    if s.len() > 0 {
        lemma_pieces_nonempty(s.drop_last());
    }
}

fn is_proper(v: &Vec<char>) -> (r: bool)
    ensures
        r == !(v@.len() == 0 || v@ == "."@),
{
    proof {
        reveal_strlit(".");
        assert("."@.len() == 1 && "."@[0] == '.');
        if v@.len() == 1 && v@[0] == '.' {
            assert(v@ =~= "."@);
        }
    }
    !(v.len() == 0 || (v.len() == 1 && v[0] == '.'))
}

/// The parts of a path.
pub fn path_parts(s: &str) -> (r: Vec<String>)
    ensures
        strings_view(r@) == parts(s@),
{
    let chars = chars_of(s);
    let mut out: Vec<String> = Vec::new();
    let mut cur: Vec<char> = Vec::new();
    let mut i: usize = 0;
    assert(strings_view(out@) =~= Seq::empty());
    assert(pieces(chars@.take(0)).drop_last() =~= Seq::empty());
    assert(pieces(chars@.take(0)).last() =~= cur@);
    while i < chars.len()
        invariant
            i <= chars@.len(),
            pieces(chars@.take(i as int)).len() >= 1,
            pieces(chars@.take(i as int)).last() == cur@,
            strings_view(out@) == proper(pieces(chars@.take(i as int)).drop_last()),
        decreases chars@.len() - i,
    {
        let ghost now = chars@.take(i + 1);
        let ghost before = pieces(chars@.take(i as int));
        assert(now.drop_last() =~= chars@.take(i as int));
        assert(now.last() == chars@[i as int]);
        if chars[i] == '/' {
            assert(pieces(now).drop_last() =~= before);
            if is_proper(&cur) {
                let ghost old_out = out@;
                out.push(from_chars(&cur));
                assert(strings_view(out@) =~= strings_view(old_out).push(cur@));
            }
            cur = Vec::new();
            assert(pieces(now).last() =~= cur@);
        } else {
            let ghost old_cur = cur@;
            cur.push(chars[i]);
            assert(pieces(now).drop_last() =~= before.drop_last());
            assert(pieces(now).last() == cur@);
        }
        i = i + 1;
    }
    assert(chars@.take(i as int) =~= chars@);
    if is_proper(&cur) {
        let ghost old_out = out@;
        out.push(from_chars(&cur));
        assert(strings_view(out@) =~= strings_view(old_out).push(cur@));
    }
    out
}

/// Parts with slashes between them.
pub fn join_parts(v: &Vec<String>) -> (r: String)
    ensures
        r@ == slashed(strings_view(v@)),
{
    let ghost all = strings_view(v@);
    let mut out = String::new();
    let mut i: usize = 0;
    assert(all.take(0) =~= Seq::empty());
    while i < v.len()
        invariant
            i <= v@.len(),
            all == strings_view(v@),
            out@ == slashed(all.take(i as int)),
        decreases v@.len() - i,
    {
        assert(all.take(i + 1).drop_last() =~= all.take(i as int));
        assert(all.take(i + 1).last() == v@[i as int]@);
        if i > 0 {
            out.append("/");
        }
        out.append(v[i].as_str());
        if i == 0 {
            assert(out@ =~= v@[0]@);
        }
        i = i + 1;
    }
    assert(all.take(i as int) =~= all);
    out
}

fn has_part(v: &Vec<String>, s: &str) -> (r: bool)
    ensures
        r == strings_view(v@).contains(s@),
{
    let ghost all = strings_view(v@);
    let mut i: usize = 0;
    while i < v.len()
        invariant
            i <= v@.len(),
            all == strings_view(v@),
            forall|j: int| 0 <= j < i ==> #[trigger] all[j] != s@,
        decreases v@.len() - i,
    {
        assert(all[i as int] == v@[i as int]@);
        if same(v[i].as_str(), s) {
            return true;
        }
        i = i + 1;
    }
    false
}

fn starts_with_slash(s: &str) -> (r: bool)
    ensures
        r == is_absolute(s@),
{
    let c = chars_of(s);
    c.len() > 0 && c[0] == '/'
}

pub open spec fn is_absolute(s: Seq<char>) -> bool {
    s.len() > 0 && s[0] == '/'
}

/// The parts of a path of a manifest, which stays in its package, or why it is refused.
pub open spec fn manifest_path(label: Seq<char>, value: Seq<char>) -> Result<Seq<Seq<char>>, Seq<char>> {
    if trimmed(value).len() == 0 {
        Err(label + " is required"@)
    } else if is_absolute(value) {
        Err(label + " must be package-relative"@)
    } else if parts(value).contains(".."@) {
        Err(label + " must not escape the package directory"@)
    } else if parts(value).len() == 0 {
        Err(label + " is required"@)
    } else {
        Ok(parts(value))
    }
}

/// A list of parts or a reason, as facts.
pub open spec fn parts_result(r: Result<Vec<String>, String>) -> Result<Seq<Seq<char>>, Seq<char>> {
    match r {
        Ok(v) => Ok(strings_view(v@)),
        Err(e) => Err(e@),
    }
}

/// The parts of a path of a manifest.
pub fn validate_relative_manifest_path(label: &str, value: &str) -> (r: Result<Vec<String>, String>)
    ensures
        parts_result(r) == manifest_path(label@, value@),
{
    if trim(value).as_str().is_empty() {
        return Err(join2(label, " is required"));
    }
    if starts_with_slash(value) {
        return Err(join2(label, " must be package-relative"));
    }
    let p = path_parts(value);
    if has_part(&p, "..") {
        return Err(join2(label, " must not escape the package directory"));
    }
    assert(strings_view(p@).len() == p@.len());
    if p.len() == 0 {
        return Err(join2(label, " is required"));
    }
    Ok(p)
}

/// A path that a manifest may name is relative, names something, and never goes up.
pub proof fn manifest_paths_stay_inside(label: Seq<char>, value: Seq<char>)
    ensures
        manifest_path(label, value) is Ok ==> {
            let p = manifest_path(label, value)->Ok_0;
            &&& !is_absolute(value)
            &&& p.len() > 0
            &&& !p.contains(".."@)
        },
{
}

/// A path below a directory. An absolute one stands for itself.
pub open spec fn below(dir: Seq<char>, rel: Seq<char>) -> Seq<char> {
    if is_absolute(rel) || dir.len() == 0 {
        rel
    } else if dir.last() == '/' {
        dir + rel
    } else {
        dir + "/"@ + rel
    }
}

/// A path below a directory.
pub fn join_path(dir: &str, rel: &str) -> (r: String)
    ensures
        r@ == below(dir@, rel@),
{
    let d = chars_of(dir);
    if starts_with_slash(rel) || d.len() == 0 {
        owned(rel)
    } else if d[d.len() - 1] == '/' {
        join2(dir, rel)
    } else {
        join3(dir, "/", rel)
    }
}

/// The last part of a path.
pub open spec fn file_name(path: Seq<char>) -> Option<Seq<char>> {
    let p = parts(path);
    if p.len() == 0 || p.last() == ".."@ { None } else { Some(p.last()) }
}

/// The last part of a path.
pub fn last_part(path: &str) -> (r: Option<String>)
    ensures
        crate::inference::contract::string_view(r) == file_name(path@),
{
    let p = path_parts(path);
    assert(strings_view(p@).len() == p@.len());
    if p.len() == 0 {
        return None;
    }
    assert(strings_view(p@).last() == p@[p@.len() - 1]@);
    if same(p[p.len() - 1].as_str(), "..") {
        return None;
    }
    Some(p[p.len() - 1].clone())
}

/// What a launch command stands for: a program that is searched for, or one below the directory.
pub open spec fn launch_path(dir: Seq<char>, cmd: Seq<char>) -> Seq<char> {
    if is_absolute(cmd) || !(cmd.contains('/') || cmd.contains('\\')) { cmd } else { below(dir, cmd) }
}

/// What a launch command stands for.
pub fn resolve_launch_cmd(dir: &str, cmd: &str) -> (r: String)
    ensures
        r@ == launch_path(dir@, cmd@),
{
    let c = chars_of(cmd);
    let mut found = false;
    let mut i: usize = 0;
    while i < c.len()
        invariant
            i <= c@.len(),
            found == exists|j: int| 0 <= j < i && (#[trigger] c@[j] == '/' || c@[j] == '\\'),
        decreases c@.len() - i,
    {
        if c[i] == '/' || c[i] == '\\' {
            found = true;
        }
        i = i + 1;
    }
    proof {
        if found {
            let j = choose|j: int| 0 <= j < i && (#[trigger] c@[j] == '/' || c@[j] == '\\');
            assert(c@.contains(c@[j]));
        } else {
            assert forall|x: char| x == '/' || x == '\\' implies !c@.contains(x) by {
                if c@.contains(x) {
                    let j = choose|j: int| 0 <= j < c@.len() && c@[j] == x;
                    assert(c@[j] == '/' || c@[j] == '\\');
                }
            }
        }
    }
    if starts_with_slash(cmd) || !found {
        owned(cmd)
    } else {
        join_path(dir, cmd)
    }
}

// Directories that a package's files are under.

/// The directory of a game's models.
pub open spec fn folder(rule_line: RuleLine) -> Seq<char> {
    match rule_line {
        RuleLine::Riichi4p => "4p"@,
        RuleLine::Riichi3p => "3p"@,
    }
}

fn folder_str(rule_line: RuleLine) -> (r: &'static str)
    ensures
        r@ == folder(rule_line),
{
    match rule_line {
        RuleLine::Riichi4p => "4p",
        RuleLine::Riichi3p => "3p",
    }
}

/// Why a model's path is refused: it lies under the directory of its game, or is a file of the
/// shared weights.
pub open spec fn model_path_fault(p: Seq<Seq<char>>, rule_line: RuleLine) -> Option<Seq<char>> {
    if p.len() == 0 {
        Some("models.path is empty"@)
    } else if p[0] == "weights"@ && p.len() == 2 {
        None
    } else if p[0] != folder(rule_line) {
        Some(
            "rule_line "@ + rule_line.spec_wire_value() + " requires model path under "@ + folder(rule_line)
                + "/ or weights/<file>"@,
        )
    } else {
        None
    }
}

/// A fault that may be there.
pub open spec fn text_fault(r: Result<(), String>) -> Option<Seq<char>> {
    match r {
        Ok(_) => None,
        Err(e) => Some(e@),
    }
}

pub fn validate_model_path_prefix(p: &Vec<String>, rule_line: RuleLine) -> (r: Result<(), String>)
    ensures
        text_fault(r) == model_path_fault(strings_view(p@), rule_line),
{
    let ghost all = strings_view(p@);
    assert(all.len() == p@.len());
    if p.len() == 0 {
        return Err(owned("models.path is empty"));
    }
    assert(all[0] == p@[0]@);
    if same(p[0].as_str(), "weights") && p.len() == 2 {
        return Ok(());
    }
    if !same(p[0].as_str(), folder_str(rule_line)) {
        let mut e = join3("rule_line ", rule_line.wire_value(), " requires model path under ");
        e.append(folder_str(rule_line));
        e.append("/ or weights/<file>");
        return Err(e);
    }
    Ok(())
}

/// Why an engine's path is refused: it lies under `bin`.
pub open spec fn engine_path_fault(p: Seq<Seq<char>>) -> Option<Seq<char>> {
    if p.len() == 0 {
        Some("models.engine.location is empty"@)
    } else if p[0] != "bin"@ {
        Some("local engine.location must be under bin/"@)
    } else {
        None
    }
}

pub fn validate_engine_path_prefix(p: &Vec<String>) -> (r: Result<(), String>)
    ensures
        text_fault(r) == engine_path_fault(strings_view(p@)),
{
    let ghost all = strings_view(p@);
    assert(all.len() == p@.len());
    if p.len() == 0 {
        return Err(owned("models.engine.location is empty"));
    }
    assert(all[0] == p@[0]@);
    if !same(p[0].as_str(), "bin") {
        return Err(owned("local engine.location must be under bin/"));
    }
    Ok(())
}

// Files that come and go.

/// Directories that an engine or its tools write to while running or building.
pub open spec fn is_transient_dir_name(name: Seq<char>) -> bool {
    ||| name == "__pycache__"@
    ||| name == ".local"@
    ||| name == ".git"@
    ||| name == ".flya-certs"@
    ||| name == ".mypy_cache"@
    ||| name == ".pytest_cache"@
    ||| name == ".ruff_cache"@
    ||| name == ".ipynb_checkpoints"@
}

pub fn is_transient_dir(name: &str) -> (r: bool)
    ensures
        r == is_transient_dir_name(name@),
{
    same(name, "__pycache__") || same(name, ".local") || same(name, ".git") || same(name, ".flya-certs") || same(
        name,
        ".mypy_cache",
    ) || same(name, ".pytest_cache") || same(name, ".ruff_cache") || same(name, ".ipynb_checkpoints")
}

/// The text after the last dot of a name, where something stands before it.
pub open spec fn extension(name: Seq<char>) -> Option<Seq<char>> {
    if name == ".."@ {
        None
    } else {
        extension_from(name, name.len())
    }
}

/// The text from a place on, where the last dot before it is not the first character.
pub open spec fn extension_from(name: Seq<char>, n: nat) -> Option<Seq<char>>
    decreases n,
{
    if n <= 1 || n > name.len() {
        None
    } else if name[n - 1] == '.' {
        Some(name.skip(n as int))
    } else {
        extension_from(name, (n - 1) as nat)
    }
}

/// Bytecode, logs and what operating systems leave behind.
pub open spec fn is_transient_file_name(name: Seq<char>) -> bool {
    ||| name == ".DS_Store"@
    ||| name == "Thumbs.db"@
    ||| extension(name) == Some("pyc"@)
    ||| extension(name) == Some("pyo"@)
    ||| extension(name) == Some("log"@)
}

fn has_extension(name: &str, ext: &str) -> (r: bool)
    ensures
        r == (extension(name@) == Some(ext@)),
{
    if same(name, "..") {
        return false;
    }
    let c = chars_of(name);
    let mut n: usize = c.len();
    while n > 1 && c[n - 1] != '.'
        invariant
            n <= c@.len(),
            c@ == name@,
            extension_from(name@, name@.len()) == extension_from(name@, n as nat),
        decreases n,
    {
        n = n - 1;
    }
    if n <= 1 {
        return false;
    }
    let e = chars_of(ext);
    if e.len() != c.len() - n {
        return false;
    }
    let mut i: usize = 0;
    while i < e.len()
        invariant
            i <= e@.len(),
            e@ == ext@,
            c@ == name@,
            1 < n <= c@.len() <= usize::MAX,
            e@.len() == c@.len() - n,
            extension(name@) == Some(name@.skip(n as int)),
            forall|j: int| 0 <= j < i ==> e@[j] == c@[n + j],
        decreases e@.len() - i,
    {
        if e[i] != c[n + i] {
            assert(name@.skip(n as int)[i as int] != ext@[i as int]);
            return false;
        }
        i = i + 1;
    }
    assert(name@.skip(n as int) =~= ext@);
    true
}

pub fn is_transient_file(name: &str) -> (r: bool)
    ensures
        r == is_transient_file_name(name@),
{
    same(name, ".DS_Store") || same(name, "Thumbs.db") || has_extension(name, "pyc") || has_extension(name, "pyo")
        || has_extension(name, "log")
}

// Names of models.

pub open spec fn is_plain(c: char) -> bool {
    ('0' <= c && c <= '9') || ('a' <= c && c <= 'z') || ('A' <= c && c <= 'Z') || c == '_' || c == '-' || c == '.'
}

/// A text in which every run of other characters is one underscore.
pub open spec fn plain_text(s: Seq<char>) -> Seq<char>
    decreases s.len(),
{
    if s.len() == 0 {
        s
    } else {
        let rest = plain_text(s.drop_last());
        if is_plain(s.last()) {
            rest.push(s.last())
        } else if rest.len() > 0 && rest.last() == '_' {
            rest
        } else {
            rest.push('_')
        }
    }
}

/// A text without the underscores at its start.
pub open spec fn bare_start(s: Seq<char>) -> Seq<char>
    decreases s.len(),
{
    if s.len() > 0 && s[0] == '_' { bare_start(s.drop_first()) } else { s }
}

/// A text without the underscores at its end.
pub open spec fn bare_end(s: Seq<char>) -> Seq<char>
    decreases s.len(),
{
    if s.len() > 0 && s.last() == '_' { bare_end(s.drop_last()) } else { s }
}

/// A name as a part of a model's identifier.
pub open spec fn id_component(s: Seq<char>) -> Seq<char> {
    let t = bare_end(bare_start(plain_text(s)));
    if t.len() == 0 { "plugin"@ } else { t }
}

fn is_plain_char(c: char) -> (r: bool)
    ensures
        r == is_plain(c),
{
    ('0' <= c && c <= '9') || ('a' <= c && c <= 'z') || ('A' <= c && c <= 'Z') || c == '_' || c == '-' || c == '.'
}

/// A name as a part of a model's identifier.
pub fn sanitize_model_id_component(value: &str) -> (r: String)
    ensures
        r@ == id_component(value@),
{
    let c = chars_of(value);
    let mut out: Vec<char> = Vec::new();
    let mut i: usize = 0;
    assert(out@ =~= plain_text(c@.take(0)));
    while i < c.len()
        invariant
            i <= c@.len(),
            out@ == plain_text(c@.take(i as int)),
        decreases c@.len() - i,
    {
        assert(c@.take(i + 1).drop_last() =~= c@.take(i as int));
        assert(c@.take(i + 1).last() == c@[i as int]);
        if is_plain_char(c[i]) {
            out.push(c[i]);
        } else if !(out.len() > 0 && out[out.len() - 1] == '_') {
            out.push('_');
        }
        i = i + 1;
    }
    assert(c@.take(i as int) =~= c@);
    let ghost plain = out@;
    let mut from: usize = 0;
    assert(plain.skip(0) =~= plain);
    while from < out.len() && out[from] == '_'
        invariant
            from <= out@.len(),
            out@ == plain,
            bare_start(plain) == bare_start(plain.skip(from as int)),
        decreases out@.len() - from,
    {
        assert(plain.skip(from as int)[0] == plain[from as int]);
        assert(plain.skip(from as int).drop_first() =~= plain.skip(from + 1));
        from = from + 1;
    }
    let ghost tail = plain.skip(from as int);
    assert(from < plain.len() ==> tail[0] == plain[from as int]);
    assert(bare_start(plain) == tail);
    let mut to: usize = out.len();
    assert(tail.take(to - from) =~= tail);
    while to > from && out[to - 1] == '_'
        invariant
            from <= to <= out@.len(),
            out@ == plain,
            tail == plain.skip(from as int),
            bare_end(tail) == bare_end(tail.take(to - from)),
        decreases to,
    {
        assert(tail.take(to - from).last() == plain[to - 1]);
        assert(tail.take(to - from).drop_last() =~= tail.take(to - 1 - from));
        to = to - 1;
    }
    assert(to > from ==> tail.take(to - from).last() == plain[to - 1]);
    assert(bare_end(tail) == tail.take(to - from));
    if to == from {
        return owned("plugin");
    }
    let mut kept: Vec<char> = Vec::new();
    let mut k: usize = from;
    while k < to
        invariant
            from <= k <= to <= out@.len(),
            kept@ == out@.subrange(from as int, k as int),
        decreases to - k,
    {
        kept.push(out[k]);
        assert(out@.subrange(from as int, k + 1) =~= out@.subrange(from as int, k as int).push(out@[k as int]));
        k = k + 1;
    }
    assert(kept@ =~= tail.take(to - from));
    from_chars(&kept)
}

/// The identifier of a model: its game, its name, and the start of its digest.
pub open spec fn model_id(name: Seq<char>, rule_line: RuleLine, hash: Seq<char>) -> Seq<char> {
    "flya-plugin:"@ + rule_line.spec_wire_value() + ":"@ + id_component(name) + ":"@ + (if hash.len() > 16 {
        hash.take(16)
    } else {
        hash
    })
}

/// The identifier of a model.
pub fn plugin_model_id(name: &str, rule_line: RuleLine, package_hash: &str) -> (r: String)
    ensures
        r@ == model_id(name@, rule_line, package_hash@),
{
    let c = chars_of(package_hash);
    let mut head: Vec<char> = Vec::new();
    let mut i: usize = 0;
    while i < c.len() && i < 16
        invariant
            i <= c@.len(),
            i <= 16,
            head@ == c@.take(i as int),
        decreases c@.len() - i,
    {
        head.push(c[i]);
        assert(c@.take(i + 1) =~= c@.take(i as int).push(c@[i as int]));
        i = i + 1;
    }
    assert(head@ =~= if c@.len() > 16 { c@.take(16) } else { c@ });
    let mut out = join3("flya-plugin:", rule_line.wire_value(), ":");
    out.append(sanitize_model_id_component(name).as_str());
    out.append(":");
    out.append(from_chars(&head).as_str());
    out
}

/// Where a model's certificate is kept.
pub open spec fn cert_path(dir: Seq<char>, rule_line: RuleLine, slug: Seq<char>) -> Seq<char> {
    below(
        below(dir, PACKAGE_CERT_DIR_NAME@),
        rule_line.spec_wire_value() + "."@ + id_component(slug) + ".json"@,
    )
}

/// Where a model's certificate is kept.
pub fn package_cert_path(dir: &str, rule_line: RuleLine, slug: &str) -> (r: String)
    ensures
        r@ == cert_path(dir@, rule_line, slug@),
{
    let mut name = join3(rule_line.wire_value(), ".", sanitize_model_id_component(slug).as_str());
    name.append(".json");
    join_path(join_path(dir, PACKAGE_CERT_DIR_NAME).as_str(), name.as_str())
}

pub open spec fn all_plain(s: Seq<char>) -> bool {
    forall|i: int| 0 <= i < s.len() ==> is_plain(#[trigger] s[i])
}

proof fn lemma_plain(s: Seq<char>)
    ensures
        all_plain(plain_text(s)),
    decreases s.len(),
{
    if s.len() > 0 {
        lemma_plain(s.drop_last());
        let rest = plain_text(s.drop_last());
        let t = plain_text(s);
        assert forall|i: int| 0 <= i < t.len() implies is_plain(#[trigger] t[i]) by {
            if i < rest.len() {
                assert(is_plain(rest[i]));
            }
        }
    }
}

proof fn lemma_bare_start(s: Seq<char>)
    requires
        all_plain(s),
    ensures
        all_plain(bare_start(s)),
    decreases s.len(),
{
    if s.len() > 0 && s[0] == '_' {
        assert forall|i: int| 0 <= i < s.drop_first().len() implies is_plain(#[trigger] s.drop_first()[i]) by {
            assert(is_plain(s[i + 1]));
        }
        lemma_bare_start(s.drop_first());
    }
}

proof fn lemma_bare_end(s: Seq<char>)
    requires
        all_plain(s),
    ensures
        all_plain(bare_end(s)),
    decreases s.len(),
{
    if s.len() > 0 && s.last() == '_' {
        assert forall|i: int| 0 <= i < s.drop_last().len() implies is_plain(#[trigger] s.drop_last()[i]) by {
            assert(is_plain(s[i]));
        }
        lemma_bare_end(s.drop_last());
    }
}

/// A name in an identifier is never empty, and holds letters, digits, underscores, dashes and
/// dots alone.
pub proof fn id_components_are_plain(s: Seq<char>)
    ensures
        id_component(s).len() > 0,
        all_plain(id_component(s)),
{
    lemma_plain(s);
    lemma_bare_start(plain_text(s));
    lemma_bare_end(bare_start(plain_text(s)));
    reveal_strlit("plugin");
    assert("plugin"@.len() == 6);
}

// Placeholders.

/// Whether a text holds another.
pub open spec fn holds(s: Seq<char>, pat: Seq<char>) -> bool
    decreases s.len(),
{
    starts_with(s, pat) || (s.len() > 0 && holds(s.drop_first(), pat))
}

/// A text with every occurrence of a placeholder replaced, from the start on.
pub open spec fn replaced(s: Seq<char>, pat: Seq<char>, by: Seq<char>) -> Seq<char>
    decreases s.len(),
{
    if s.len() == 0 {
        s
    } else if pat.len() > 0 && starts_with(s, pat) {
        by + replaced(s.skip(pat.len() as int), pat, by)
    } else {
        seq![s[0]] + replaced(s.drop_first(), pat, by)
    }
}

fn starts_at(s: &Vec<char>, at: usize, pat: &Vec<char>) -> (r: bool)
    requires
        at <= s@.len(),
    ensures
        r == starts_with(s@.skip(at as int), pat@),
{
    if pat.len() > s.len() - at {
        return false;
    }
    let mut i: usize = 0;
    while i < pat.len()
        invariant
            i <= pat@.len() <= s@.len() - at,
            s@.len() <= usize::MAX,
            forall|j: int| 0 <= j < i ==> s@[at + j] == pat@[j],
        decreases pat@.len() - i,
    {
        if s[at + i] != pat[i] {
            assert(s@.skip(at as int).take(pat@.len() as int)[i as int] != pat@[i as int]);
            return false;
        }
        i = i + 1;
    }
    assert(s@.skip(at as int).take(pat@.len() as int) =~= pat@);
    true
}

/// Whether a text holds another.
pub fn holds_text(s: &str, pat: &str) -> (r: bool)
    ensures
        r == holds(s@, pat@),
{
    let c = chars_of(s);
    let p = chars_of(pat);
    let mut i: usize = 0;
    assert(c@.skip(0) =~= c@);
    while i < c.len()
        invariant
            i <= c@.len(),
            c@ == s@,
            p@ == pat@,
            holds(s@, pat@) == holds(c@.skip(i as int), pat@),
        decreases c@.len() - i,
    {
        if starts_at(&c, i, &p) {
            return true;
        }
        assert(c@.skip(i as int).drop_first() =~= c@.skip(i + 1));
        i = i + 1;
    }
    starts_at(&c, i, &p)
}

/// A text with every occurrence of a placeholder replaced.
pub fn replace_text(s: &str, pat: &str, by: &str) -> (r: String)
    requires
        pat@.len() > 0,
    ensures
        r@ == replaced(s@, pat@, by@),
{
    let c = chars_of(s);
    let p = chars_of(pat);
    let mut out = String::new();
    let mut i: usize = 0;
    assert(c@.skip(0) =~= c@);
    assert(out@ + replaced(c@, pat@, by@) =~= replaced(s@, pat@, by@));
    while i < c.len()
        invariant
            i <= c@.len(),
            p@ == pat@,
            p@.len() > 0,
            out@ + replaced(c@.skip(i as int), pat@, by@) == replaced(s@, pat@, by@),
        decreases c@.len() - i,
    {
        let ghost rest = c@.skip(i as int);
        let ghost before = out@;
        if starts_at(&c, i, &p) {
            out.append(by);
            assert(rest.skip(p@.len() as int) =~= c@.skip(i + p@.len()));
            assert(out@ + replaced(c@.skip(i + p@.len()), pat@, by@) =~= before + (by@ + replaced(
                c@.skip(i + p@.len()),
                pat@,
                by@,
            )));
            i = i + p.len();
        } else {
            out.push(c[i]);
            assert(rest.drop_first() =~= c@.skip(i + 1));
            assert(out@ + replaced(c@.skip(i + 1), pat@, by@) =~= before + (seq![rest[0]] + replaced(
                c@.skip(i + 1),
                pat@,
                by@,
            )));
            i = i + 1;
        }
    }
    assert(c@.skip(i as int) =~= Seq::empty());
    assert(out@ + Seq::<char>::empty() =~= out@);
    out
}

} // verus!
