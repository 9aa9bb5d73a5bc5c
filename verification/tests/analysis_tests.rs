use exo_self::commands::patchpath::{
    build_import_index, file_to_module, parse_imports, resolve_relative_import, run as patchpath, skip_entry,
    ImportEntry, PyFile,
};
use exo_self::commands::pre_compact::{handoff_name, run as pre_compact};
use exo_self::reflect::{
    classify_provenance, date_to_week, infer_boundary_preferences, MetaAversion, Provenance, SessionRef, Valence,
};
use exo_self::state::SessionState;

fn s(v: &str) -> String {
    v.to_string()
}

#[test]
fn relative_imports_resolve_against_the_module() {
    assert_eq!(resolve_relative_import("os.path", "pkg.mod"), "os.path");
    assert_eq!(resolve_relative_import(".util", "pkg.sub.mod"), "pkg.sub.util");
    assert_eq!(resolve_relative_import("..core", "pkg.sub.mod"), "pkg.core");
    assert_eq!(resolve_relative_import(".", "pkg.mod"), "pkg");
    assert_eq!(resolve_relative_import("...x", "a"), "x");
}

#[test]
fn files_map_to_modules() {
    assert_eq!(file_to_module("./src/pkg/mod.py"), "pkg.mod");
    assert_eq!(file_to_module("pkg/__init__.py"), "pkg");
    assert_eq!(file_to_module("./app/main.py"), "app.main");
    assert!(skip_entry(".venv"));
    assert!(skip_entry("node_modules"));
    assert!(skip_entry("build"));
    assert!(!skip_entry("pkg"));
}

#[test]
fn imports_are_parsed_with_aliases_and_continuations() {
    let content = "# comment\nfrom .models import (\n    User,\n    Group as G,\n)\nfrom os import path, \\\n    sep\nfrom x import *\nimport json\n";
    let mut entries: Vec<ImportEntry> = Vec::new();
    parse_imports(content, "app.views", &mut entries);
    let got: Vec<(String, String, String)> = entries
        .iter()
        .map(|e| (e.symbol.clone(), e.source_module.clone(), e.importing_module.clone()))
        .collect();
    assert_eq!(
        got,
        vec![
            (s("User"), s("app.models"), s("app.views")),
            (s("G"), s("app.models"), s("app.views")),
            (s("path"), s("os"), s("app.views")),
            (s("sep"), s("os"), s("app.views")),
        ]
    );
}

#[test]
fn patch_target_is_where_the_name_is_looked_up() {
    let files = vec![
        PyFile { path: s("./src/app/views.py"), content: s("from app.services import send_mail\n") },
        PyFile { path: s("./src/app/services.py"), content: s("from smtplib import SMTP\n") },
    ];
    let index = build_import_index(&files);
    assert_eq!(index.len(), 2);
    let report = patchpath("send_mail", Some("app.views"), &files);
    assert_eq!(report.stdout, vec![s("app.views.send_mail")]);
    assert_eq!(report.stderr[1], "# app.views imports send_mail from app.services");
    let report = patchpath("SMTP", None, &files);
    assert_eq!(report.stdout.len(), 0);
    assert_eq!(report.stderr, vec![s("Modules that import `SMTP`:"), s("  app.services.SMTP  (from smtplib)")]);
    let report = patchpath("nothing", None, &files);
    assert_eq!(report.stderr, vec![s("No modules import `nothing`.")]);
}

#[test]
fn weeks_of_dates() {
    assert_eq!(date_to_week("2026-03-23"), "2026-W12");
    assert_eq!(date_to_week("2026-01-01"), "2026-W01");
    assert_eq!(date_to_week("2026-13-05"), "2026-W49");
    assert_eq!(date_to_week("someday"), "unknown");
    assert_eq!(date_to_week("2026-01-15"), "2026-W03");
    assert_eq!(date_to_week("2026-12-31"), "2026-W53");
    assert_eq!(date_to_week("2026-01-00"), "unknown");
    assert_eq!(date_to_week("2026-12-4294967295"), "unknown");
}

#[test]
fn provenance_by_first_supporting_session() {
    assert!(matches!(classify_provenance(0, 3), Provenance::Developing));
    assert!(matches!(classify_provenance(1, 20), Provenance::Trained));
    assert!(matches!(classify_provenance(12, 20), Provenance::Emergent));
    assert!(matches!(classify_provenance(7, 20), Provenance::Emergent));
    assert!(matches!(classify_provenance(4, 30), Provenance::Developing));
}

#[test]
fn boundaries_from_aversions() {
    let avs = vec![
        MetaAversion { text: s("Performative positivity"), project: s("p"), session_id: s("s2") },
        MetaAversion { text: s("performative POSITIVITY"), project: s("p"), session_id: s("s3") },
        MetaAversion { text: s("Busywork"), project: s("p"), session_id: s("zz") },
    ];
    let sessions = vec![
        SessionRef { session_id: s("s1"), date: s("2026-01-01") },
        SessionRef { session_id: s("s2"), date: s("2026-01-02") },
    ];
    let prefs = infer_boundary_preferences(&avs, &sessions);
    assert_eq!(prefs.len(), 2);
    assert_eq!(prefs[0].claim, "boundary: Performative positivity");
    assert_eq!(prefs[0].first_observed, "2026-01-02");
    assert!(matches!(prefs[0].valence, Valence::Boundary));
    assert!(matches!(prefs[0].provenance, Provenance::Developing));
    assert_eq!(prefs[1].claim, "boundary: Busywork");
    assert_eq!(prefs[1].first_observed, "unknown");
    assert_eq!(prefs[0].confidence.supporting, 1);
}

#[test]
fn compaction_is_counted() {
    assert_eq!(handoff_name(""), "latest");
    assert_eq!(handoff_name("abc"), "abc");
    let mut state = SessionState::fresh();
    pre_compact(&mut state, "auto");
    pre_compact(&mut state, "manual");
    assert_eq!(state.compactions, 2);
    assert_eq!(state.last_compaction_trigger, "manual");
}
