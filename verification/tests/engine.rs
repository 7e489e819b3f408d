use dialogos::check;
use dialogos::end;
use dialogos::jump;
use dialogos::label;
use dialogos::menu;
use dialogos::text;
use dialogos::variable;
use dialogos::Dialogue;
use dialogos::LineType;

/// The host's share of expression evaluation: the library tokenizes and
/// validates, the host parses the operands as 64-bit floats and applies the
/// operator.
fn eval(expr: &str) -> Option<String> {
    let (lhs, op, rhs) = dialogos::expr_parts(expr)?;
    let a: f64 = lhs.parse().ok()?;
    let b: f64 = rhs.parse().ok()?;
    let bf = |c: bool| if c { 1.0 } else { 0.0 };
    let v = match op.as_str() {
        "+" => a + b,
        "-" => a - b,
        "*" => a * b,
        "/" => a / b,
        "%" => a % b,
        "<" => bf(a < b),
        ">" => bf(a > b),
        "<=" => bf(a <= b),
        ">=" => bf(a >= b),
        "==" => bf(a == b),
        "!=" => bf(a != b),
        _ => return None,
    };
    Some(v.to_string())
}

/// Answers pending expressions until the cursor rests on a host-observable line.
fn pump(d: &mut Dialogue) {
    while let Some(expr) = d.pending() {
        let r = eval(&expr);
        d.supply(r);
    }
}

fn evaluate(expr: &str) -> Option<f64> {
    eval(expr).and_then(|s| s.parse().ok())
}

#[test]
fn evaluate_arithmetic() {
    assert_eq!(evaluate("15 + 25"), Some(40.0));
    assert_eq!(evaluate("15 - 25"), Some(-10.0));
    assert_eq!(evaluate("10 * 20"), Some(200.0));
    assert_eq!(evaluate("10 / 20"), Some(0.5));
    assert_eq!(evaluate("10 % 20"), Some(10.0));
}

#[test]
fn evaluate_comparisons() {
    assert_eq!(evaluate("6 < 6"), Some(0.0));
    assert_eq!(evaluate("6 > 6"), Some(0.0));
    assert_eq!(evaluate("6 <= 6"), Some(1.0));
    assert_eq!(evaluate("6 >= 6"), Some(1.0));
    assert_eq!(evaluate("6 == 6"), Some(1.0));
    assert_eq!(evaluate("6 != 6"), Some(0.0));
}

#[test]
fn evaluate_rejects_bad_shapes() {
    assert_eq!(evaluate("not three tokens"), None);
    assert_eq!(evaluate("a + 1"), None);
    assert_eq!(evaluate("1 + "), None);
    assert_eq!(evaluate("42"), None);
    assert_eq!(evaluate("1 ? 2"), None);
    assert_eq!(evaluate(""), None);
}

#[test]
fn expr_parts_tokenizes() {
    let (lhs, op, rhs) = dialogos::expr_parts("  15 + 25  ").unwrap();
    assert_eq!(lhs, "15");
    assert_eq!(op, "+");
    assert_eq!(rhs, "25");
}

#[test]
fn expr_parts_rejects_wrong_token_count() {
    assert!(dialogos::expr_parts("1 + 2 + 3").is_none());
    assert!(dialogos::expr_parts("1  +  2").is_none());
    assert!(dialogos::expr_parts("lonely").is_none());
}

#[test]
fn expr_parts_rejects_unknown_operator() {
    assert!(dialogos::expr_parts("1 & 2").is_none());
    assert!(dialogos::expr_parts("1 => 2").is_none());
}

#[test]
fn split_counts_pieces() {
    assert_eq!(dialogos::split("Hello||Gamer||Sisters").len(), 3);
    assert_eq!(dialogos::split("no separator"), vec!["no separator"]);
    assert_eq!(dialogos::split("a||"), vec!["a", ""]);
    assert_eq!(dialogos::split("  padded||b  "), vec!["padded", "b"]);
}

#[test]
fn text_lines_in_order() {
    let mut d = Dialogue::new(vec![text("A", "1"), text("B", "2")]);
    pump(&mut d);
    assert_eq!(d.line().info, "A");
    d.next();
    pump(&mut d);
    assert_eq!(d.line().info, "B");
    d.next();
    pump(&mut d);
    assert!(d.has_end());
}

#[test]
fn empty_script_is_at_end() {
    let d = Dialogue::new(vec![]);
    assert!(d.has_end());
    assert_eq!(d.line().t, LineType::End);
}

#[test]
fn advance_past_end_clamps() {
    let mut d = Dialogue::new(vec![text("A", "1")]);
    d.next();
    d.next();
    d.next();
    assert!(d.has_end());
}

#[test]
fn labels_are_transparent() {
    let mut d = Dialogue::new(vec![label("X"), text("A", "hi")]);
    pump(&mut d);
    assert_eq!(d.line().info, "A");
}

#[test]
fn jump_to_existing_label() {
    let merchant = |cont: &str| text("Merchant", cont);
    let mut d = Dialogue::new(vec![
        label("Buy"),
        merchant("What're ya buyin?"),
        jump("End"),
        label("Sell"),
        merchant("What're ya sellin?"),
        label("End"),
        merchant("Heh heh heh... Thank you!"),
    ]);
    assert!(d.has_label("Sell"));
    d.jump("Sell");
    pump(&mut d);
    assert_eq!(d.line().cont, "What're ya sellin?");
}

#[test]
fn jump_line_with_missing_target_falls_through() {
    let mut d = Dialogue::new(vec![jump("nowhere"), text("A", "x")]);
    pump(&mut d);
    assert_eq!(d.line().info, "A");
}

#[test]
fn jump_line_relocates_cursor() {
    let mut d = Dialogue::new(vec![
        jump("skip"),
        text("A", "unseen"),
        label("skip"),
        text("B", "seen"),
    ]);
    pump(&mut d);
    assert_eq!(d.line().cont, "seen");
}

#[test]
fn has_label_reports_unknown_names() {
    let d = Dialogue::new(vec![label("known")]);
    assert!(d.has_label("known"));
    assert!(!d.has_label("unknown"));
}

#[test]
fn variable_expression_renders_its_value() {
    let mut d = Dialogue::new(vec![variable("v", "1 + 2"), text("A", "__v")]);
    pump(&mut d);
    assert_eq!(d.line().cont, "3");
}

#[test]
fn variable_literal_fallback() {
    let mut d = Dialogue::new(vec![variable("v", "abc"), text("A", "__v")]);
    pump(&mut d);
    assert_eq!(d.line().cont, "abc");
}

#[test]
fn variable_substitutes_all_occurrences() {
    let mut d = Dialogue::new(vec![variable("v", "7 * 6"), text("A", "__v and __v")]);
    pump(&mut d);
    assert_eq!(d.line().cont, "42 and 42");
}

#[test]
fn unbound_token_left_verbatim() {
    let mut d = Dialogue::new(vec![text("A", "hello __nobody")]);
    pump(&mut d);
    assert_eq!(d.line().cont, "hello __nobody");
}

#[test]
fn stored_line_is_not_mutated_by_rendering() {
    let mut d = Dialogue::new(vec![variable("v", "1 + 1"), text("A", "__v")]);
    pump(&mut d);
    assert_eq!(d.line().cont, "2");
    d.set_var("v", "9");
    assert_eq!(d.line().cont, "9");
}

#[test]
fn check_pass_shows_next_line() {
    let mut d = Dialogue::new(vec![check("__v == 9"), text("A", "yes"), text("B", "no")]);
    d.set_var("v", "9");
    pump(&mut d);
    assert_eq!(d.line().info, "A");
}

#[test]
fn check_fail_skips_next_line() {
    let mut d = Dialogue::new(vec![check("__v == 9"), text("A", "yes"), text("B", "no")]);
    d.set_var("v", "8");
    pump(&mut d);
    assert_eq!(d.line().info, "B");
}

#[test]
fn check_invalid_expression_fails_closed() {
    let mut d = Dialogue::new(vec![check("gibberish"), text("A", "yes"), text("B", "no")]);
    pump(&mut d);
    assert_eq!(d.line().info, "B");
}

#[test]
fn check_skip_clamps_to_end() {
    let mut d = Dialogue::new(vec![text("A", "1"), check("1 == 2")]);
    pump(&mut d);
    d.next();
    pump(&mut d);
    assert!(d.has_end());
}

#[test]
fn menu_choices_and_selection() {
    let mut d = Dialogue::new(vec![
        menu("L1||L2", "Choice1||Choice2"),
        label("L1"),
        text("A", "one"),
        label("L2"),
        text("B", "two"),
    ]);
    pump(&mut d);
    assert!(d.has_menu());
    assert_eq!(d.choices(), vec!["Choice1", "Choice2"]);
    d.select(1);
    pump(&mut d);
    assert_eq!(d.line().cont, "two");
}

#[test]
fn menu_first_choice() {
    let mut d = Dialogue::new(vec![
        menu("L1||L2", "Choice1||Choice2"),
        label("L2"),
        text("B", "two"),
        label("L1"),
        text("A", "one"),
    ]);
    pump(&mut d);
    d.select(0);
    pump(&mut d);
    assert_eq!(d.line().cont, "one");
}

#[test]
fn change_resets_cursor_and_rebuilds_labels() {
    let mut d = Dialogue::new(vec![text("A", "old first"), text("B", "old second")]);
    d.next();
    d.change(vec![text("C", "new first"), label("L"), text("D", "target")]);
    pump(&mut d);
    assert_eq!(d.line().cont, "new first");
    d.jump("L");
    pump(&mut d);
    assert_eq!(d.line().cont, "target");
}

#[test]
fn variables_persist_across_change() {
    let mut d = Dialogue::new(vec![variable("v", "2 * 4"), text("A", "__v")]);
    pump(&mut d);
    assert_eq!(d.line().cont, "8");
    d.change(vec![text("B", "still __v")]);
    pump(&mut d);
    assert_eq!(d.line().cont, "still 8");
    assert_eq!(d.get_var("v"), Some("8".to_string()));
}

#[test]
fn current_line_is_stable_between_steps() {
    let mut d = Dialogue::new(vec![variable("v", "1 + 1"), text("A", "v is __v")]);
    pump(&mut d);
    let first = d.line();
    let second = d.line();
    assert_eq!(first, second);
}

#[test]
fn reset_returns_to_script_head() {
    let mut d = Dialogue::new(vec![text("A", "1"), text("B", "2")]);
    d.next();
    assert_eq!(d.line().info, "B");
    d.reset();
    assert_eq!(d.line().info, "A");
}

#[test]
fn set_and_get_variables() {
    let mut d = Dialogue::new(vec![text("A", "1")]);
    assert_eq!(d.get_var("x"), None);
    d.set_var("x", "first");
    assert_eq!(d.get_var("x"), Some("first".to_string()));
    d.set_var("x", "second");
    assert_eq!(d.get_var("x"), Some("second".to_string()));
}

#[test]
fn variable_store_updates_through_script() {
    let mut d = Dialogue::new(vec![
        variable("n", "5"),
        text("A", "__n"),
        variable("n", "__n + 1"),
        text("B", "__n"),
    ]);
    pump(&mut d);
    assert_eq!(d.line().cont, "5");
    d.next();
    pump(&mut d);
    assert_eq!(d.line().cont, "6");
}

#[test]
fn token_of_underscores_only() {
    let mut d = Dialogue::new(vec![text("A", "a __ b")]);
    pump(&mut d);
    assert_eq!(d.line().cont, "a __ b");
}

#[test]
fn interpolation_applies_to_info_too() {
    let mut d = Dialogue::new(vec![variable("who", "99"), text("speaker __who", "hi")]);
    pump(&mut d);
    assert_eq!(d.line().info, "speaker 99");
}

#[test]
fn end_constructor_is_empty_end_line() {
    let l = end();
    assert_eq!(l.t, LineType::End);
    assert_eq!(l.info, "");
    assert_eq!(l.cont, "");
}

#[test]
fn constructors_place_fields() {
    assert_eq!(text("i", "c").t, LineType::Text);
    assert_eq!(label("L").cont, "L");
    assert_eq!(label("L").info, "");
    assert_eq!(jump("L").cont, "L");
    assert_eq!(menu("a||b", "x||y").info, "a||b");
    assert_eq!(variable("v", "1").info, "v");
    assert_eq!(check("1 == 1").cont, "1 == 1");
}

#[test]
fn circular_jump_chain_stops() {
    // A script whose labels and jumps chase each other exhausts the
    // resolution fuel and parks the cursor instead of hanging.
    let mut d = Dialogue::new(vec![label("a"), jump("a")]);
    pump(&mut d);
    assert!(!d.has_end());
}
