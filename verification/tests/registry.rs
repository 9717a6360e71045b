use flytable::event::event3p::Event3p;
use flytable::event::event4p::Event4p;
use flytable::inference::contract::{EngineCaps, InferenceDecision, LegalAction, RiichiStyle, RuleLine};
use flytable::inference::registry::digest::{package_hash, package_model_hash, package_shares, plugin_covers, PackageFile};
use flytable::inference::registry::manifest::{
    add_model, validate_manifest, validate_package_manifest, validate_package_model, LaunchManifest, ManifestCaps,
    PackageEngineManifest, PackageManifest, PackageModelKind, PackageModelManifest, PackageTranslatorManifest, PluginManifest,
    ValidatedManifest,
};
use flytable::inference::registry::names::{
    is_transient_dir, is_transient_file, join_path, package_cert_path, plugin_model_id, replace_text, resolve_launch_cmd,
    sanitize_model_id_component, validate_relative_manifest_path,
};
use flytable::inference::registry::scan::{
    cached_entry, certified_plugin_runtimes_from_report, certified_runtime_driver_kind, new_certificate, scan_report, tried_entry,
    validate_caps, Candidate, CertifiedRuntimeDriverKind, FoundManifest, PluginScanEntry, PluginScanStatus, SmokeSummary,
};
use flytable::inference::registry::smoke::{
    fallback_turn_index, opening_case_3p, opening_case_4p, select_index, select_opening_index, SmokeRun,
};
use flytable::inference::registry::trial::{
    may_abstain, scan_package, scan_package_model, scan_plugin, trial_config, TRIAL_TIMEOUT,
};
use flytable::inference::request::digest_bytes;
use flytable::mahjong::tile::Tile;
use flytable::maintainer::action::TurnAction;

fn s(v: &[&str]) -> Vec<String> {
    v.iter().map(|x| x.to_string()).collect()
}

fn plugin() -> PluginManifest {
    PluginManifest {
        schema: 1,
        name: "Engine".to_string(),
        protocol: "flya-inference-v2".to_string(),
        rule_line: "riichi4p".to_string(),
        riichi_style: "parallel_discard".to_string(),
        launch: LaunchManifest { cmd: "./run".to_string(), args: s(&["--x"]) },
        caps: None,
    }
}

fn model() -> PackageModelManifest {
    PackageModelManifest {
        id: "m1".to_string(),
        display_name: "Model".to_string(),
        rule_line: "riichi4p".to_string(),
        kind: "onnx".to_string(),
        path: Some("./4p/net.onnx".to_string()),
        remote_backend: None,
        weight_file: None,
        remote_model: None,
        engine: None,
        caps: None,
        args: s(&["--model", "{model_path}", "{rule_line}"]),
    }
}

fn package() -> PackageManifest {
    PackageManifest {
        schema: 2,
        package_id: "pack".to_string(),
        display_name: "Pack".to_string(),
        protocol: "flya-inference-v1".to_string(),
        riichi_style: "parallel_discard".to_string(),
        translator: PackageTranslatorManifest { exe: None, py: None, python: None, args: s(&["-v"]) },
        caps: None,
        models: vec![model()],
    }
}

fn files() -> Vec<String> {
    s(&["translator.py", "4p/net.onnx", "bin/engine", "weights/w.bin"])
}

fn smoke() -> SmokeSummary {
    SmokeSummary { decisions: 8, all_legal: true, dealer_opening_checked: true, max_infer_ms: 5 }
}

// Names.

#[test]
fn manifest_paths_stay_in_the_package() {
    let ok = |v: &str| validate_relative_manifest_path("p", v).unwrap().join("/");
    let err = |v: &str| validate_relative_manifest_path("p", v).unwrap_err();
    assert_eq!(ok("a/b"), "a/b");
    assert_eq!(ok("./a//b/."), "a/b");
    assert_eq!(err(" "), "p is required");
    assert_eq!(err("/a"), "p must be package-relative");
    assert_eq!(err("a/../b"), "p must not escape the package directory");
    assert_eq!(err("."), "p is required");
}

#[test]
fn launch_commands_are_resolved() {
    assert_eq!(resolve_launch_cmd("/d", "python"), "python");
    assert_eq!(resolve_launch_cmd("/d", "bin/run"), "/d/bin/run");
    assert_eq!(resolve_launch_cmd("/d", "/usr/bin/run"), "/usr/bin/run");
    assert_eq!(join_path("/d/", "x"), "/d/x");
}

#[test]
fn model_identifiers_are_plain() {
    assert_eq!(sanitize_model_id_component("a b/c"), "a_b_c");
    assert_eq!(sanitize_model_id_component("__\u{3042}__"), "plugin");
    assert_eq!(sanitize_model_id_component("  v1.2-x  "), "v1.2-x");
    assert_eq!(
        plugin_model_id("My Net", RuleLine::Riichi3p, "sha256:0123456789abcdef"),
        "flya-plugin:riichi3p:My_Net:sha256:012345678"
    );
    assert_eq!(package_cert_path("/p", RuleLine::Riichi4p, "a b"), "/p/.flya-certs/riichi4p.a_b.json");
}

#[test]
fn transient_files() {
    assert!(is_transient_dir("__pycache__") && is_transient_dir(".git") && !is_transient_dir("src"));
    assert!(is_transient_file("x.pyc") && is_transient_file("run.log") && is_transient_file(".DS_Store"));
    assert!(!is_transient_file("x.pyd") && !is_transient_file(".log") && !is_transient_file("log"));
    assert!(plugin_covers("a/b.py") && !plugin_covers("a/__pycache__/b.py") && !plugin_covers(".flya-cert.json"));
    assert!(package_shares("translator.py") && !package_shares("4p/net.onnx") && !package_shares("flya-package.toml"));
    assert!(package_shares("4p"));
}

#[test]
fn placeholders_are_replaced_everywhere() {
    assert_eq!(replace_text("a{x}b{x}", "{x}", "1"), "a1b1");
    assert_eq!(replace_text("{{x}}", "{x}", "{x}"), "{{x}}");
    assert_eq!(replace_text("none", "{x}", "1"), "none");
}

// Manifests.

#[test]
fn plugin_rules() {
    let v = validate_manifest(&plugin(), RuleLine::Riichi4p).unwrap();
    assert_eq!((v.name.as_str(), v.rule_line), ("Engine", RuleLine::Riichi4p));
    let fail = |f: fn(&mut PluginManifest)| {
        let mut m = plugin();
        f(&mut m);
        validate_manifest(&m, RuleLine::Riichi4p).unwrap_err()
    };
    assert_eq!(fail(|m| m.schema = 2), "unsupported schema 2");
    assert_eq!(fail(|m| m.name = " ".into()), "name is required");
    assert_eq!(fail(|m| m.protocol = "v9".into()), "unsupported protocol v9");
    assert_eq!(fail(|m| m.rule_line = "go".into()), "unknown rule_line \"go\"");
    assert_eq!(
        fail(|m| m.rule_line = "riichi3p".into()),
        "rule_line riichi3p does not match parent directory riichi4p"
    );
    assert_eq!(fail(|m| m.riichi_style = "x".into()), "unknown riichi_style \"x\"");
    assert_eq!(fail(|m| m.launch.cmd = "".into()), "launch.cmd is required");
}

#[test]
fn package_rules() {
    let v = validate_package_manifest("/root/pack", &package(), &files()).unwrap();
    assert_eq!(v.translator.launch_cmd, "python");
    assert_eq!(v.translator.launch_prefix_args, s(&["translator.py", "-v"]));
    let exe = validate_package_manifest("/root/pack", &package(), &s(&["translator.exe"])).unwrap();
    assert_eq!(exe.translator.launch_cmd, "/root/pack/translator.exe");
    assert_eq!(
        validate_package_manifest("/root/pack", &package(), &s(&[])).unwrap_err(),
        "package must contain translator executable translator.exe or Python translator translator.py"
    );
    assert_eq!(
        validate_package_manifest("/root/other", &package(), &files()).unwrap_err(),
        "package_id pack does not match package directory other"
    );
    let mut p = package();
    p.schema = 3;
    assert_eq!(validate_package_manifest("/root/pack", &p, &files()).unwrap_err(), "schema 3 package caps are required");
}

#[test]
fn model_rules() {
    let p = validate_package_manifest("/root/pack", &package(), &files()).unwrap();
    let v = validate_package_model("/root/pack", &p, &model(), &files()).unwrap();
    assert_eq!(v.launch_args, s(&["translator.py", "-v", "--model", "4p/net.onnx", "riichi4p"]));
    let fail = |f: fn(&mut PackageModelManifest)| {
        let mut m = model();
        f(&mut m);
        validate_package_model("/root/pack", &p, &m, &files()).unwrap_err()
    };
    assert_eq!(fail(|m| m.id = "".into()), "models.id is required");
    assert_eq!(fail(|m| m.path = None), "path is required for onnx model m1");
    assert_eq!(fail(|m| m.path = Some("4p/none".into())), "model path 4p/none does not exist");
    assert_eq!(
        fail(|m| m.path = Some("3p/net".into())),
        "rule_line riichi4p requires model path under 4p/ or weights/<file>"
    );
    assert_eq!(fail(|m| m.kind = "x".into()), "unsupported model kind \"x\" for m1");
    assert_eq!(
        fail(|m| {
            m.kind = "remote".into();
            m.path = None;
        }),
        "remote_backend is required for remote model m1"
    );
    assert_eq!(
        fail(|m| {
            m.kind = "remote".into();
            m.path = None;
            m.remote_backend = Some("b".into());
        }),
        "{model_path} cannot be used by remote models"
    );
    let mut shared = model();
    shared.path = Some("weights/w.bin".into());
    assert!(validate_package_model("/root/pack", &p, &shared, &files()).is_ok());
}

fn runtime_model(kind: &str, engine: &str, location: &str) -> PackageModelManifest {
    PackageModelManifest {
        kind: kind.to_string(),
        path: None,
        weight_file: if kind == "local" { Some("weights/w.bin".to_string()) } else { None },
        remote_model: if kind == "remote" { Some("big".to_string()) } else { None },
        engine: Some(PackageEngineManifest {
            kind: engine.to_string(),
            location: location.to_string(),
            protocol: "p".to_string(),
            args: vec![],
        }),
        caps: Some(ManifestCaps { supports_incremental: false, returns_ranked_actions: false }),
        args: s(&["{engine_kind}", "{engine_location}", "{remote_model}", "{package_dir}/{manifest_path}"]),
        ..model()
    }
}

fn runtime_package() -> PackageManifest {
    let mut p = package();
    p.schema = 3;
    p.caps = Some(ManifestCaps { supports_incremental: false, returns_ranked_actions: false });
    p
}

#[test]
fn runtime_model_rules() {
    let p = validate_package_manifest("/root/pack", &runtime_package(), &files()).unwrap();
    let local = validate_package_model("/root/pack", &p, &runtime_model("local", "local", "bin/engine"), &files()).unwrap();
    assert!(matches!(local.kind, PackageModelKind::RuntimeLocal { .. }));
    assert_eq!(
        local.launch_args,
        s(&["translator.py", "-v", "local", "bin/engine", "", "/root/pack/flya-package.toml"])
    );
    let remote = validate_package_model("/root/pack", &p, &runtime_model("remote", "remote", "https://e"), &files()).unwrap();
    assert_eq!(remote.launch_args[4], "big");
    let err = |m: PackageModelManifest| validate_package_model("/root/pack", &p, &m, &files()).unwrap_err();
    assert_eq!(err(runtime_model("local", "local", "4p/net.onnx")), "local engine.location must be under bin/");
    assert_eq!(err(runtime_model("local", "local", "bin/none")), "engine.location bin/none does not exist");
    assert_eq!(
        err(runtime_model("remote", "remote", "ftp://e")),
        "remote engine.location for model m1 must be an http(s) URL"
    );
    assert_eq!(
        err(runtime_model("local", "remote", "http://e")),
        "local model m1 requires [models.engine].kind = \"local\""
    );
    assert_eq!(err(model()), "schema 3 model m1 caps are required");
}

#[test]
fn a_package_has_each_model_once() {
    let mut p = package();
    assert_eq!(add_model(&mut p, model()).unwrap_err(), "duplicate package model m1 for riichi4p");
    let mut other = model();
    other.rule_line = "riichi3p".to_string();
    add_model(&mut p, other).unwrap();
    assert_eq!(p.models.len(), 2);
}

// Digests.

fn file(path: &str, bytes: &[u8]) -> PackageFile {
    PackageFile { path: path.to_string(), bytes: Ok(bytes.to_vec()) }
}

fn unreadable(path: &str, reason: &str) -> PackageFile {
    PackageFile { path: path.to_string(), bytes: Err(reason.to_string()) }
}

#[test]
fn digests_cover_lasting_files_in_order() {
    let expected = Ok(digest_bytes(b"a.txt\0A\xffb/c.py\0C\xff"));
    assert_eq!(package_hash(vec![file("a.txt", b"A"), file("b/c.py", b"C")]), expected);
    assert_eq!(package_hash(vec![file("b/c.py", b"C"), file("x.log", b"L"), file("a.txt", b"A")]), expected);
    assert_ne!(package_hash(vec![file("a.txt", b"B"), file("b/c.py", b"C")]), expected);
    // Only files that count are read, the first in order first.
    assert_eq!(package_hash(vec![file("b/c.py", b"C"), unreadable("x.log", "no"), file("a.txt", b"A")]), expected);
    assert_eq!(package_hash(vec![unreadable("b", "later"), unreadable("a", "first")]), Err("first".to_string()));
}

fn contents() -> Vec<PackageFile> {
    vec![file("translator.py", b"T"), file("4p/net.onnx", b"N"), file("4p/other.onnx", b"O"), file("__pycache__/x.pyc", b"P")]
}

#[test]
fn model_digests_cover_the_model() {
    let p = package();
    let v = validate_package_manifest("/root/pack", &p, &s(&["translator.py", "4p/net.onnx"])).unwrap();
    let m = validate_package_model("/root/pack", &v, &p.models[0], &s(&["translator.py", "4p/net.onnx"])).unwrap();
    let digest = package_model_hash(&p, &p.models[0], &m.kind, contents()).unwrap();
    let mut frame = b"flya-package-v2-model-runtime\0manifest\0".to_vec();
    frame.extend_from_slice(
        br#"{"schema":2,"package_id":"pack","protocol":"flya-inference-v1","riichi_style":"parallel_discard","translator":{"exe":null,"py":null,"python":null,"args":["-v"]},"caps":null,"model":{"id":"m1","display_name":"Model","rule_line":"riichi4p","kind":"onnx","path":"./4p/net.onnx","remote_backend":null,"weight_file":null,"remote_model":null,"engine":null,"caps":null,"args":["--model","{model_path}","{rule_line}"]}}"#,
    );
    frame.extend_from_slice(b"\xffshared\0translator.py\0T\xffmodel\x004p/net.onnx\0N\xff");
    assert_eq!(digest, digest_bytes(&frame));
    let with = |model: PackageFile, shared: PackageFile| {
        package_model_hash(&p, &p.models[0], &m.kind, vec![model, shared, unreadable("4p/other.onnx", "not asked for")])
    };
    let gone = "failed to open /root/pack/4p/net.onnx: No such file or directory (os error 2)";
    assert_eq!(with(file("4p/net.onnx", b"N"), file("translator.py", b"T")), Ok(digest));
    assert_eq!(with(unreadable("4p/net.onnx", gone), file("translator.py", b"T")), Err(gone.to_string()));
    assert_eq!(with(unreadable("4p/net.onnx", gone), unreadable("translator.py", "shared")), Err("shared".to_string()));
}

// Certificates and scans.

fn candidate() -> Candidate {
    Candidate {
        dir: "/m/4p/engine".to_string(),
        layout: "legacy".to_string(),
        package_id: None,
        slug: "Engine".to_string(),
        protocol: "flya-inference-v2".to_string(),
        rule_line: RuleLine::Riichi4p,
        riichi_style: RiichiStyle::ParallelDiscard,
        package_hash: "sha256:00".to_string(),
        cert_path: "/m/4p/engine/.flya-cert.json".to_string(),
    }
}

fn caps() -> EngineCaps {
    EngineCaps {
        caps_version: 1,
        protocol_versions: s(&["flya-inference-v2"]),
        rule_lines: vec![RuleLine::Riichi4p],
        riichi_style: RiichiStyle::ParallelDiscard,
        supports_incremental: false,
        returns_ranked_actions: false,
    }
}

#[test]
fn certificates_hold_for_their_files_only() {
    let c = candidate();
    let cert = |hash: &str| Some(new_certificate(hash, "flya-inference-v2", RuleLine::Riichi4p, &caps(), smoke(), "now"));
    assert!(matches!(
        cached_entry(&c, &cert("sha256:00")),
        Some(PluginScanEntry { status: PluginScanStatus::Certified { cached: true, .. }, .. })
    ));
    assert!(cached_entry(&c, &cert("sha256:01")).is_none());
    assert!(cached_entry(&c, &None).is_none());
    let mut old = cert("sha256:00");
    old.as_mut().unwrap().smoke.dealer_opening_checked = false;
    assert!(cached_entry(&c, &old).is_none());
}

#[test]
fn engines_match_their_manifest() {
    let m = ValidatedManifest {
        name: "e".to_string(),
        protocol: "flya-inference-v2".to_string(),
        rule_line: RuleLine::Riichi4p,
        riichi_style: RiichiStyle::ParallelDiscard,
    };
    assert!(validate_caps(&caps(), &m).is_ok());
    let mut other = caps();
    other.riichi_style = RiichiStyle::DeclareThenDiscard;
    assert_eq!(
        validate_caps(&other, &m).unwrap_err(),
        "manifest riichi_style parallel_discard disagrees with engine caps declare_then_discard"
    );
    other.rule_lines.clear();
    assert_eq!(validate_caps(&other, &m).unwrap_err(), "caps.rule_lines does not include riichi4p");
    other.protocol_versions.clear();
    assert_eq!(
        validate_caps(&other, &m).unwrap_err(),
        "caps protocol_versions does not include flya-inference-v2"
    );
}

#[test]
fn only_certified_entries_run() {
    let c = candidate();
    let entries = vec![
        tried_entry(&c, Ok(smoke())),
        tried_entry(&c, Err("no".to_string())),
        PluginScanEntry::failed("/m/4p/x", "bad".to_string()),
        PluginScanEntry::skipped("/m/3p", "unreadable".to_string()),
    ];
    assert_eq!(entries[2].name, "x");
    let report = scan_report("/m", entries);
    assert_eq!((report.scanned, report.certified, report.failed, report.skipped), (4, 1, 2, 1));
    let found = vec![
        FoundManifest::Plugin(plugin()),
        FoundManifest::Plugin(plugin()),
        FoundManifest::Unreadable,
        FoundManifest::Unreadable,
    ];
    let runtimes = certified_plugin_runtimes_from_report(&report, &found);
    assert_eq!(runtimes.len(), 1);
    assert_eq!(runtimes[0].model_id, "flya-plugin:riichi4p:Engine:sha256:00");
    assert_eq!(runtimes[0].launch_cmd, "/m/4p/engine/./run");
    assert_eq!(
        certified_runtime_driver_kind(&runtimes[0], &None, vec![]).unwrap(),
        CertifiedRuntimeDriverKind::LocalProcess
    );
}

#[test]
fn drivers_follow_the_package() {
    let p = package();
    let listing = s(&["translator.py", "4p/net.onnx", "4p/other.onnx", "__pycache__/x.pyc"]);
    let v = validate_package_manifest("/root/pack", &p, &listing).unwrap();
    let m = validate_package_model("/root/pack", &v, &p.models[0], &listing).unwrap();
    let mut c = candidate();
    c.dir = "/root/pack".to_string();
    c.layout = "package".to_string();
    c.package_id = Some("pack".to_string());
    c.slug = "m1".to_string();
    c.package_hash = package_model_hash(&p, &p.models[0], &m.kind, contents()).unwrap();
    let report = scan_report("/m", vec![tried_entry(&c, Ok(smoke()))]);
    let runtimes = certified_plugin_runtimes_from_report(&report, &vec![FoundManifest::Package(package(), listing)]);
    assert_eq!(runtimes[0].launch_args.last().unwrap(), "riichi4p");
    assert_eq!(
        certified_runtime_driver_kind(&runtimes[0], &Some(package()), contents()).unwrap(),
        CertifiedRuntimeDriverKind::LocalProcess
    );
    let mut changed = contents();
    changed[1].bytes = Ok(b"changed".to_vec());
    assert_eq!(
        certified_runtime_driver_kind(&runtimes[0], &Some(package()), changed).unwrap_err(),
        "certified runtime package digest changed while resolving driver kind"
    );
    let mut locked = contents();
    locked[1].bytes = Err("locked".to_string());
    assert_eq!(certified_runtime_driver_kind(&runtimes[0], &Some(package()), locked).unwrap_err(), "locked");
    assert_eq!(CertifiedRuntimeDriverKind::RemoteProvider.wire_value(), "remote_provider");
}

// Trials.

#[test]
fn engines_are_asked_about_the_dealers_opening() {
    let four = opening_case_4p().unwrap_or_else(|e| panic!("{e}"));
    assert_eq!(four.events.len(), 3);
    match &four.events[0] {
        Event4p::StartGame { names, seed } => assert!(names == &["a", "b", "c", "d"] && seed.is_none()),
        _ => panic!("not the start of a game"),
    }
    assert!(four.legal_actions.iter().any(|a| matches!(a, LegalAction::DealerOpeningDiscard { .. })));
    assert!(four.wall_remaining > 0);
    let three = opening_case_3p().unwrap_or_else(|e| panic!("{e}"));
    match &three.events[0] {
        Event3p::StartGame { names, seed } => assert!(names == &["a", "b", "c"] && seed.is_none()),
        _ => panic!("not the start of a game"),
    }
    assert!(three.legal_actions.iter().any(|a| matches!(a, LegalAction::DealerOpeningDiscard { .. })));
}

#[test]
fn tried_engines_have_to_decide() {
    let pick = |index: usize| InferenceDecision::Select { index, meta: None };
    assert_eq!(select_index(&pick(1), 2).unwrap(), 1);
    assert_eq!(select_index(&pick(2), 2).unwrap_err(), "engine selected out-of-range legal index 2");
    assert_eq!(
        select_index(&InferenceDecision::Abstain, 2).unwrap_err(),
        "engine abstained during certification smoke"
    );
    assert!(select_opening_index(&InferenceDecision::Abstain, 2, true).is_ok());
    assert!(select_opening_index(&InferenceDecision::Abstain, 2, false).is_err());
}

#[test]
fn trials_end_after_enough_decisions() {
    let one = Tile::from_name("1m").unwrap();
    let actions = [TurnAction::Tsumo, TurnAction::Discard { tile: one, tsumogiri: true }];
    assert_eq!(fallback_turn_index(&actions), 1);
    assert_eq!(fallback_turn_index(&actions[..1]), 0);
    let mut run = SmokeRun::new(3);
    for i in 0..8 {
        assert!(!run.is_done());
        run.on_decision(i);
        run.on_step(true).unwrap();
    }
    assert!(run.is_done());
    assert_eq!(run.on_hand_over(100), 108);
    assert_eq!(run.summary().max_infer_ms, 7);
    let mut long = SmokeRun::new(0);
    for _ in 0..5000 {
        long.on_step(false).unwrap();
    }
    assert!(long.on_step(false).is_err());
}

fn reason(e: &PluginScanEntry) -> &str {
    match &e.status {
        PluginScanStatus::Failed { reason } => reason,
        _ => panic!("not a failure"),
    }
}

#[test]
fn plugins_are_judged_before_they_are_started() {
    let held = vec![file("a", b"1")];
    let t = scan_plugin("/p", &plugin(), RuleLine::Riichi4p, Ok(held)).ok().unwrap();
    assert_eq!(t.candidate.cert_path, "/p/.flya-cert.json");
    assert_eq!(Ok(t.candidate.package_hash.clone()), package_hash(vec![file("a", b"1")]));
    assert_eq!(t.candidate.layout, "legacy");
    assert_eq!(t.candidate.slug, "Engine");
    assert_eq!(t.launch_cmd, "/p/./run");
    assert_eq!(t.launch_args, s(&["--x"]));
    assert!(!may_abstain(&t));
    let config = trial_config(&t, 12);
    assert_eq!(config.session_id, "cert-Engine-12");
    assert_eq!(config.timeout, TRIAL_TIMEOUT);
    assert_eq!(config.cwd.unwrap(), "/p");
    assert_eq!(config.match_context.write(), "{\"certification\":true,\"length\":\"east\"}");
    assert_eq!(config.protocol_versions, s(&["flya-inference-v2"]));

    let unread = scan_plugin("/p", &plugin(), RuleLine::Riichi4p, Err("x".to_string())).err().unwrap();
    assert_eq!(reason(&unread), "failed to hash package: x");
    let locked = scan_plugin("/p", &plugin(), RuleLine::Riichi4p, Ok(vec![unreadable("a", "y")])).err().unwrap();
    assert_eq!(reason(&locked), "failed to hash package: y");
    let wrong = scan_plugin("/p", &plugin(), RuleLine::Riichi3p, Ok(vec![])).err().unwrap();
    assert_eq!(reason(&wrong), "rule_line riichi4p does not match parent directory riichi3p");
    assert_eq!(wrong.package_hash, None);
}

#[test]
fn models_are_judged_before_they_are_started() {
    let manifest = package();
    let listing: Vec<String> = contents().into_iter().map(|f| f.path).collect();
    let p = scan_package("/root/pack", &manifest, &listing).ok().unwrap();
    let m = model();
    let held = || Ok(contents());
    let t = scan_package_model("/root/pack", &manifest, &p, &m, &listing, held()).ok().unwrap();
    let v = validate_package_model("/root/pack", &p, &m, &listing).unwrap();
    assert_eq!(t.candidate.package_hash, package_model_hash(&manifest, &m, &v.kind, contents()).unwrap());
    assert_eq!(t.candidate.cert_path, package_cert_path("/root/pack", RuleLine::Riichi4p, "m1"));
    assert_eq!(t.candidate.layout, "package");
    assert_eq!(t.engine.name, "m1");
    assert_eq!(t.launch_cmd, p.translator.launch_cmd);
    assert!(may_abstain(&t));

    let mut nameless = model();
    nameless.id = " ".to_string();
    let e = scan_package_model("/root/pack", &manifest, &p, &nameless, &listing, held()).err().unwrap();
    assert_eq!((e.name.as_str(), reason(&e)), ("pack", "models.id is required"));
    let e = scan_package_model("/root/pack", &manifest, &p, &m, &listing, Err("x".to_string())).err().unwrap();
    assert_eq!(reason(&e), "failed to hash package model: x");
    let mut locked = contents();
    locked[1].bytes = Err("y".to_string());
    let e = scan_package_model("/root/pack", &manifest, &p, &m, &listing, Ok(locked)).err().unwrap();
    assert_eq!(reason(&e), "failed to hash package model: y");
    let mut empty = package();
    empty.models = vec![];
    let e = scan_package("/root/pack", &empty, &listing).err().unwrap();
    assert_eq!(reason(&e), "at least one [[models]] entry is required");
    assert_eq!(e.package_id.unwrap(), "pack");
}
