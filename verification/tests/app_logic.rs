use cobalt::editor::{
    apply_pending, cycle_tab, find_prefill, goto_line,
    replace_case_insensitive, try_replace_case_insensitive, byte_to_char, char_to_byte, find_next, line_col, set_text_keep_line, toggle_block_comment, toggle_line_comment,
    toggle_block_lines, try_find_next, EditorState, PendingEdit,
};
use cobalt::grid::extend_selection;
use cobalt::history::time_ago_at;
use cobalt::catalog::{ObjectKind, ObjectRef};
use cobalt::palette::{fuzzy_rank, fuzzy_score, known_objects, palette_query, rank_entries, step_selection, PaletteItem, MAX_LISTED};
use cobalt::ids::ProfileId;
use cobalt::settings::ThemeChoice;
use cobalt::theme::{mode_for, Mode};
use cobalt::viewer::{hex_dump, pretty_xml, try_pretty_xml};

fn state(cursor: usize, selection: Option<(usize, usize)>) -> EditorState {
    EditorState { cursor, selection, line: 1, find_text: String::new(), find_case: false, pending_edit: None }
}

#[test]
fn char_and_byte_positions() {
    let t = "aé€😀b";
    assert_eq!(char_to_byte(t, 0), 0);
    assert_eq!(char_to_byte(t, 1), 1);
    assert_eq!(char_to_byte(t, 2), 3);
    assert_eq!(char_to_byte(t, 3), 6);
    assert_eq!(char_to_byte(t, 4), 10);
    assert_eq!(char_to_byte(t, 99), t.len());
    assert_eq!(byte_to_char(t, 6), 3);
    assert_eq!(byte_to_char(t, 11), 5);
    assert_eq!(byte_to_char(t, 500), 5);
}

#[test]
fn line_and_column() {
    let t = "select 1\nfrom t\n  where x";
    assert_eq!(line_col(t, 0), (1, 1));
    assert_eq!(line_col(t, 8), (1, 9));
    assert_eq!(line_col(t, 9), (2, 1));
    assert_eq!(line_col(t, 20), (3, 5));
    assert_eq!(line_col(t, 1000), (3, 10));
}

fn replaced(ed: &EditorState) -> (usize, usize, String, Option<usize>) {
    match &ed.pending_edit {
        Some(PendingEdit::Replace { start, end, text, cursor_after }) => (*start, *end, text.clone(), *cursor_after),
        _ => panic!("expected a replace"),
    }
}

#[test]
fn line_comments_toggle_on_and_off() {
    let text = "select 1\n\n  from t\nwhere x";
    let mut ed = state(0, Some((3, 12)));
    toggle_line_comment(text, &mut ed);
    let (start, end, new, after) = replaced(&ed);
    assert_eq!((start, end), (0, 18));
    assert_eq!(new, "-- select 1\n\n--   from t");
    assert_eq!(after, Some(24));
    assert_eq!(ed.selection, Some((0, 24)));

    let text = "-- select 1\n  --from t\n";
    let mut ed = state(5, None);
    toggle_line_comment(text, &mut ed);
    let (_, _, new, _) = replaced(&ed);
    assert_eq!(new, "select 1");
    let mut ed = state(0, Some((0, 20)));
    toggle_line_comment(text, &mut ed);
    let (_, _, new, _) = replaced(&ed);
    assert_eq!(new, "select 1\n  from t");
}

#[test]
fn block_comments_toggle() {
    let text = "select é from t";
    let mut ed = state(0, Some((7, 8)));
    toggle_block_comment(text, &mut ed);
    let (start, end, new, after) = replaced(&ed);
    assert_eq!((start, end), (7, 9));
    assert_eq!(new, "/* é */");
    assert_eq!(after, Some(14));
    assert_eq!(ed.selection, Some((7, 14)));

    let text = "  /*  x  */ ";
    let mut ed = state(0, Some((0, 12)));
    toggle_block_comment(text, &mut ed);
    let (_, _, new, _) = replaced(&ed);
    assert_eq!(new, "x");

    let mut ed = state(3, None);
    toggle_block_comment(text, &mut ed);
    assert!(ed.pending_edit.is_none());
}

#[test]
fn replacing_text_keeps_the_line() {
    let mut ed = state(0, None);
    ed.line = 3;
    set_text_keep_line(&mut ed, "ab\ncd\nef".to_string());
    match ed.pending_edit {
        Some(PendingEdit::SetText { ref text, cursor }) => {
            assert_eq!(text, "ab\ncd\nef");
            assert_eq!(cursor, 6);
        }
        _ => panic!("expected set-text"),
    }
    ed.line = 9;
    set_text_keep_line(&mut ed, "x\ny".to_string());
    assert!(matches!(ed.pending_edit, Some(PendingEdit::SetText { cursor: 3, .. })));
}

#[test]
fn find_next_wraps_and_ignores_case() {
    let text = "Select a; SELECT b";
    let mut ed = state(0, None);
    ed.find_text = "select".to_string();
    find_next(text, &mut ed);
    assert_eq!(ed.selection, Some((0, 6)));
    find_next(text, &mut ed);
    assert_eq!(ed.selection, Some((10, 16)));
    assert_eq!(ed.cursor, 16);
    find_next(text, &mut ed);
    assert_eq!(ed.selection, Some((0, 6)));
    ed.find_case = true;
    ed.find_text = "SELECT".to_string();
    assert!(try_find_next(text, &mut ed));
    assert_eq!(ed.selection, Some((10, 16)));
    ed.find_text = "nothing".to_string();
    let before = ed.selection;
    find_next(text, &mut ed);
    assert_eq!(ed.selection, before);
}

#[test]
fn hex_dump_layout() {
    let d = hex_dump(b"AB\x00\x7f0123456789abcdefg");
    let lines: Vec<&str> = d.lines().collect();
    assert_eq!(lines.len(), 2);
    assert_eq!(lines[0], "00000000  41 42 00 7F 30 31 32 33  34 35 36 37 38 39 61 62  |AB..0123456789ab|");
    assert_eq!(lines[1], format!("00000010  63 64 65 66 67 {}  |cdefg|", " ".repeat(33)));
    assert_eq!(hex_dump(b""), "");
}

#[test]
fn xml_is_indented() {
    let x = pretty_xml("  <a><b>text</b><c/><?p?></a> ");
    assert_eq!(x, "<a>\n  <b>text</b>\n  <c/>\n  <?p?>\n</a>");
    assert_eq!(pretty_xml("<r><s>1</s></r>"), "<r>\n  <s>1</s>\n</r>");
}

#[test]
fn fuzzy_scores() {
    assert_eq!(fuzzy_score("", "anything"), Some(0));
    assert_eq!(fuzzy_score("xyz", "abc"), None);
    // "new" at the start: 4 + 5 + 5 + 20 (substring) + 30 (prefix)
    assert_eq!(fuzzy_score("New", "new query"), Some(64));
    // "nq": n at start (4), q at a word start (4)
    assert_eq!(fuzzy_score("nq", "new query"), Some(8));
    assert_eq!(fuzzy_rank("nq", "new query"), Some(Some(8)));
}

#[test]
fn selection_extends_from_anchor() {
    let r = extend_selection(Some((5, 2)), 1, 7);
    assert_eq!((r.r0, r.c0, r.r1, r.c1), (1, 2, 5, 7));
    let r = extend_selection(None, 3, 4);
    assert_eq!((r.r0, r.c0, r.r1, r.c1), (3, 4, 3, 4));
}

#[test]
fn relative_times() {
    let now = 1_700_000_000_000i64;
    assert_eq!(time_ago_at(now, now - 59_999).as_deref(), Some("just now"));
    assert_eq!(time_ago_at(now, now + 5_000).as_deref(), Some("just now"));
    assert_eq!(time_ago_at(now, now - 60_000).as_deref(), Some("1 min ago"));
    assert_eq!(time_ago_at(now, now - 3 * 3_600_000).as_deref(), Some("3 h ago"));
    assert_eq!(time_ago_at(now, now - 2 * 86_400_000).as_deref(), Some("2 d ago"));
    assert_eq!(time_ago_at(now, now - 7 * 86_400_000), None);
}

#[test]
fn theme_modes() {
    assert_eq!(mode_for(ThemeChoice::Light, true), Mode::Light);
    assert_eq!(mode_for(ThemeChoice::Dark, false), Mode::Dark);
    assert_eq!(mode_for(ThemeChoice::System, true), Mode::Dark);
    assert_eq!(mode_for(ThemeChoice::System, false), Mode::Light);
}

#[test]
fn replace_all_ignoring_case() {
    assert_eq!(replace_case_insensitive("Select a; SELECT b; selECT", "select", "X"), "X a; X b; X");
    assert_eq!(replace_case_insensitive("aaa", "aa", "b"), "ba");
    assert_eq!(replace_case_insensitive("abc", "", "-"), "-a-b-c-");
    assert_eq!(replace_case_insensitive("héllo HÉLLO", "hÉllo", "x"), "x x");
    assert_eq!(replace_case_insensitive("nothing here", "zzz", "y"), "nothing here");
    assert_eq!(try_replace_case_insensitive("Select a; SELECT b", "select", "X").as_deref(), Some("X a; X b"));
    assert_eq!(try_replace_case_insensitive("aÉb", "é", "e").as_deref(), Some("aeb"));
}

#[test]
fn pending_replace_edits_text_and_places_cursor() {
    let mut text = String::from("SELECT é FROM t");
    let mut ed = state(0, None);
    // Replace the two-byte `é` (bytes 7..9) with `*`: the cursor lands after the insertion.
    ed.pending_edit = Some(PendingEdit::Replace { start: 7, end: 9, text: "*".to_string(), cursor_after: None });
    assert_eq!(apply_pending(&mut text, &mut ed), Some((8, 8)));
    assert_eq!(text, "SELECT * FROM t");
    assert!(ed.pending_edit.is_none());
    // Nothing pending: nothing changes.
    assert_eq!(apply_pending(&mut text, &mut ed), None);
    assert_eq!(text, "SELECT * FROM t");
}

#[test]
fn pending_edits_clamp_and_honour_explicit_cursor() {
    let mut text = String::from("abc");
    let mut ed = state(0, None);
    // `start` past the end clamps to the end, and `end` to `start`: an append.
    ed.pending_edit = Some(PendingEdit::Replace { start: 10, end: 2, text: "de".to_string(), cursor_after: Some(1) });
    assert_eq!(apply_pending(&mut text, &mut ed), Some((1, 1)));
    assert_eq!(text, "abcde");
    ed.pending_edit = Some(PendingEdit::Select(1, 3));
    assert_eq!(apply_pending(&mut text, &mut ed), Some((1, 3)));
    ed.pending_edit = Some(PendingEdit::SetCursor(2));
    assert_eq!(apply_pending(&mut text, &mut ed), Some((2, 2)));
    ed.pending_edit = Some(PendingEdit::SetText { text: "x\ny".to_string(), cursor: 2 });
    assert_eq!(apply_pending(&mut text, &mut ed), Some((2, 2)));
    assert_eq!(text, "x\ny");
}

#[test]
fn palette_query_modes() {
    assert_eq!(palette_query("#  orders "), (true, "orders".to_string()));
    assert_eq!(palette_query("connect"), (false, "connect".to_string()));
    assert_eq!(palette_query(""), (false, String::new()));
    assert_eq!(palette_query("#"), (true, String::new()));
}

#[test]
fn palette_lists_by_score_then_text_keeping_ties() {
    let e = |s: i32, id: u128, text: &str| (s, PaletteItem::<u8>::Connect(ProfileId(id)), text.to_string(), String::new());
    let ranked = rank_entries(vec![e(3, 1, "b"), e(9, 2, "z"), e(3, 3, "a"), e(3, 4, "b"), e(-1, 5, "a")]);
    let ids: Vec<u128> = ranked
        .iter()
        .map(|x| match x.1 {
            PaletteItem::Connect(p) => p.0,
            _ => unreachable!(),
        })
        .collect();
    // Highest score first; equal scores by text; the two ("b", 3) entries keep their order.
    assert_eq!(ids, vec![2, 3, 1, 4, 5]);
}

#[test]
fn palette_lists_at_most_forty() {
    let many: Vec<(i32, PaletteItem<u8>, String, String)> =
        (0..50).map(|i| (i, PaletteItem::Command(0u8), format!("c{i:02}"), String::new())).collect();
    let ranked = rank_entries(many);
    assert_eq!(ranked.len(), MAX_LISTED);
    assert_eq!(ranked[0].0, 49);
    assert_eq!(ranked[39].0, 10);
}

#[test]
fn palette_selection_wraps() {
    assert_eq!(step_selection(0, 3, true), 1);
    assert_eq!(step_selection(2, 3, true), 0);
    assert_eq!(step_selection(0, 3, false), 2);
    assert_eq!(step_selection(1, 3, false), 0);
    assert_eq!(step_selection(0, 0, true), 0);
}

#[test]
fn goto_line_moves_cursor_to_line_start() {
    let text = "ab\ncdé\nf";
    let mut ed = state(0, None);
    goto_line(text, &mut ed, " 3 ");
    assert!(matches!(ed.pending_edit, Some(PendingEdit::SetCursor(7))));
    goto_line(text, &mut ed, "2");
    assert!(matches!(ed.pending_edit, Some(PendingEdit::SetCursor(3))));
    goto_line(text, &mut ed, "0");
    assert!(matches!(ed.pending_edit, Some(PendingEdit::SetCursor(0))));
    goto_line(text, &mut ed, "99");
    assert!(matches!(ed.pending_edit, Some(PendingEdit::SetCursor(8))));
    // Not a number: the pending edit stays as it was.
    goto_line(text, &mut ed, "x");
    assert!(matches!(ed.pending_edit, Some(PendingEdit::SetCursor(8))));
}

fn obj(db: &str, schema: &str, name: &str, kind: ObjectKind) -> ObjectRef {
    ObjectRef { database: db.to_string(), schema: schema.to_string(), name: name.to_string(), kind, object_id: None }
}

#[test]
fn known_objects_dedup_per_connection_ignoring_case() {
    let a = ProfileId(1);
    let b = ProfileId(2);
    let found = known_objects(vec![
        (a, obj("Sales", "dbo", "Orders", ObjectKind::Table)),
        (a, obj("sales", "DBO", "orders", ObjectKind::View)),
        (b, obj("Sales", "dbo", "Orders", ObjectKind::Table)),
        (a, obj("Sales", "dbo", "Customers", ObjectKind::Table)),
    ]);
    let names: Vec<(u128, String, ObjectKind)> = found.iter().map(|(p, o)| (p.0, o.name.clone(), o.kind)).collect();
    assert_eq!(
        names,
        vec![(1, "Orders".to_string(), ObjectKind::Table), (2, "Orders".to_string(), ObjectKind::Table), (1, "Customers".to_string(), ObjectKind::Table)]
    );
    assert!(known_objects(Vec::new()).is_empty());
}

#[test]
fn toggling_line_comments_twice_restores_the_lines() {
    let block: Vec<char> = "select 1\n\n  from t\n-- note".chars().collect();
    let once = toggle_block_lines(&block);
    assert_eq!(once.iter().collect::<String>(), "-- select 1\n\n--   from t\n-- -- note");
    let twice = toggle_block_lines(&once);
    assert_eq!(twice, block);
}

#[test]
fn toggling_block_comment_twice_restores_the_selection() {
    let mut text = String::from("x select 1 y");
    let mut ed = state(2, Some((2, 10)));
    toggle_block_comment(&text.clone(), &mut ed);
    apply_pending(&mut text, &mut ed);
    assert_eq!(text, "x /* select 1 */ y");
    assert_eq!(ed.selection, Some((2, 16)));
    toggle_block_comment(&text.clone(), &mut ed);
    apply_pending(&mut text, &mut ed);
    assert_eq!(text, "x select 1 y");
    assert_eq!(ed.selection, Some((2, 10)));
}

#[test]
fn xml_indenting_refuses_non_ascii_outside_tags() {
    assert_eq!(try_pretty_xml("<a><b>x</b></a>").as_deref(), Some("<a>\n  <b>x</b>\n</a>"));
    assert_eq!(try_pretty_xml("<a>é</a>").as_deref(), Some("<a>é</a>"));
    // Text before the first tag is skipped a byte at a time, which a non-ASCII character breaks.
    assert_eq!(try_pretty_xml("x<a/>").as_deref(), Some("<a/>"));
    assert_eq!(try_pretty_xml("é<a/>"), None);
}

#[test]
fn toggling_line_comments_twice_through_the_editor_restores_the_text() {
    let original = "a\nselect 1\n  from t\nz";
    let mut text = String::from(original);
    let mut ed = state(3, Some((3, 12)));
    toggle_line_comment(&text.clone(), &mut ed);
    apply_pending(&mut text, &mut ed);
    assert_eq!(text, "a\n-- select 1\n--   from t\nz");
    assert_eq!(ed.selection, Some((2, 25)));
    toggle_line_comment(&text.clone(), &mut ed);
    apply_pending(&mut text, &mut ed);
    assert_eq!(text, original);
    assert_eq!(ed.selection, Some((2, 19)));
}

#[test]
fn tabs_cycle_both_ways() {
    assert_eq!(cycle_tab(0, 3, true), 1);
    assert_eq!(cycle_tab(2, 3, true), 0);
    assert_eq!(cycle_tab(0, 3, false), 2);
    assert_eq!(cycle_tab(2, 3, false), 1);
    assert_eq!(cycle_tab(0, 1, true), 0);
    assert_eq!(cycle_tab(0, 1, false), 0);
}

#[test]
fn find_opens_with_a_one_line_selection() {
    let text = "select é\nfrom t";
    assert_eq!(find_prefill(text, Some((7, 8))).as_deref(), Some("é"));
    assert_eq!(find_prefill(text, Some((0, 6))).as_deref(), Some("select"));
    assert_eq!(find_prefill(text, Some((3, 3))), None);
    assert_eq!(find_prefill(text, Some((5, 11))), None);
    assert_eq!(find_prefill(text, Some((9, 99))).as_deref(), Some("from t"));
    assert_eq!(find_prefill(text, None), None);
}
