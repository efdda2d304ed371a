use arcadedb_protocol::encode::Params;
use arcadedb_protocol::sql::{
    check_balance, check_create_edge, check_delete, check_insert, check_reserved_placeholders,
    check_single_statement, check_update_order, placeholders, sql, strip_literals_and_comments,
    validate, words,
};

fn ok(sql: &str) -> bool {
    validate(sql).is_empty()
}

#[test]
fn accepts_the_three_update_shapes() {
    assert!(ok("UPDATE users SET status = :status WHERE user_id = :user_id"));
    assert!(ok(
        "UPDATE users SET status = :status, score = :score UPSERT WHERE user_id = :user_id"
    ));
    assert!(ok(
        "UPDATE users SET status = :status UPSERT RETURN AFTER WHERE user_id = :user_id"
    ));
    assert!(ok("SELECT FROM orders WHERE user_id IN :ids"));
    assert!(ok("SELECT * FROM orders WHERE total > 0 ORDER BY total DESC"));
}

#[test]
fn rejects_the_clause_order_traps() {
    let errs = validate("UPDATE users SET status = :s WHERE user_id = :c UPSERT");
    assert!(
        errs.iter().any(|e| e.contains("UPSERT after WHERE")),
        "unexpected: {errs:?}"
    );
    let errs = validate("UPDATE users SET status = :s UPSERT WHERE user_id = :x RETURN AFTER");
    assert!(
        errs.iter().any(|e| e.contains("RETURN AFTER at the end")),
        "unexpected: {errs:?}"
    );
    let errs = validate("UPDATE users SET status = :s UPSERT RETURN AFTER");
    assert!(
        errs.iter().any(|e| e.contains("without WHERE")),
        "unexpected: {errs:?}"
    );
}

#[test]
fn rejects_unbalanced_and_unterminated() {
    assert!(validate("SELECT FROM orders WHERE (user_id = :s").iter().any(|e| e.contains("unclosed")));
    assert!(validate("SELECT 'oops FROM orders").iter().any(|e| e.contains("unterminated")));
    assert!(validate("UPDATE t SET a = :a WHERE b = :b))").iter().any(|e| e.contains("unmatched")));
}

#[test]
fn rejects_return_without_upsert_and_misordered_clauses() {
    // RETURN belongs to the UPSERT shape only.
    let errs = validate("UPDATE t SET a = :a RETURN AFTER WHERE b = :b");
    assert!(
        errs.iter().any(|e| e.contains("RETURN without UPSERT")),
        "unexpected: {errs:?}"
    );
    // WHERE before SET is never valid.
    let errs = validate("UPDATE t WHERE b = :b SET a = :a");
    assert!(
        errs.iter().any(|e| e.contains("WHERE before SET")),
        "unexpected: {errs:?}"
    );
    // Hand-written empty SET.
    let errs = validate("UPDATE t SET WHERE b = :b");
    assert!(
        errs.iter().any(|e| e.contains("empty SET")),
        "unexpected: {errs:?}"
    );
}

#[test]
fn rejects_multi_statement_and_guards_destructive_shapes() {
    // Pasted scripts stay plain literals (trailing `;` is fine).
    assert!(ok("UPDATE t SET a = :a WHERE b = :b;"));
    let errs = validate("UPDATE t SET a = :a WHERE b = :b; DELETE FROM t WHERE b = :b");
    assert!(
        errs.iter().any(|e| e.contains("multiple statements")),
        "unexpected: {errs:?}"
    );
    // Whole-type wipe.
    let errs = validate("DELETE FROM users");
    assert!(
        errs.iter().any(|e| e.contains("DELETE without WHERE")),
        "unexpected: {errs:?}"
    );
    assert!(ok("DELETE FROM users WHERE user_id = :id"));
    // Subquery-carried WHERE still counts.
    assert!(ok(
        "DELETE FROM (SELECT expand(outE('LIKES')) FROM users WHERE user_id = :id)"
    ));
    // INSERT / CREATE EDGE shapes.
    let errs = validate("INSERT users SET a = :a");
    assert!(
        errs.iter().any(|e| e.contains("INTO")),
        "unexpected: {errs:?}"
    );
    assert!(ok("INSERT INTO users SET a = :a"));
    let errs = validate("CREATE EDGE LIKES FROM (SELECT FROM users WHERE user_id = :id)");
    assert!(
        errs.iter().any(|e| e.contains("without TO")),
        "unexpected: {errs:?}"
    );
    assert!(ok(
        "CREATE EDGE LIKES FROM (SELECT FROM users WHERE user_id = :a) TO (SELECT FROM posts WHERE post_id = :b)"
    ));
}

#[test]
fn create_edge_type_ddl_is_exempt() {
    // `CREATE EDGE TYPE …` declares the type — no instance endpoints.
    assert!(ok("CREATE EDGE TYPE links IF NOT EXISTS"));
    assert!(ok("CREATE DOCUMENT TYPE users IF NOT EXISTS"));
    assert!(ok("CREATE VERTEX TYPE node_a IF NOT EXISTS"));
    assert!(ok("CREATE PROPERTY users.user_id IF NOT EXISTS LONG"));
    assert!(ok("CREATE INDEX idx_users_uid IF NOT EXISTS ON users(user_id) UNIQUE"));
}

#[test]
fn backtick_spans_are_invisible() {
    // Extension-function names carry dots and parens around them —
    // keywords/delimiters *inside* the span must not confuse the scan.
    assert!(ok(
        "SELECT *, $score AS score FROM posts WHERE SEARCH_INDEX('posts[title]', :keywords) = true ORDER BY score DESC"
    ));
    let errs = validate("SELECT `oops FROM posts");
    assert!(
        errs.iter().any(|e| e.contains("backtick")),
        "unexpected: {errs:?}"
    );
}

#[test]
fn rejects_reserved_placeholders() {
    let errs = validate("UPDATE t SET a = :a UPSERT RETURN AFTER WHERE b = :after");
    assert!(
        errs.iter().any(|e| e.contains(":after")),
        "unexpected: {errs:?}"
    );
}

#[test]
fn limit_and_skip_placeholders_are_allowed() {
    // Live queries bind these (LIMIT :limit ships in production) —
    // the denylist must stay narrow or it rejects working statements.
    assert!(ok("SELECT a FROM t ORDER BY b ASC LIMIT :limit"));
    assert!(ok("SELECT a FROM t ORDER BY b ASC LIMIT :limit SKIP :skip"));
}

#[test]
fn literals_and_comments_are_invisible() {
    // Keywords and colons inside strings/comments must not confuse
    // the order scan, the balance scan, or placeholder extraction.
    assert!(ok(
        "UPDATE t SET note = 'UPSERT WHERE :fake' WHERE id = :id -- trailing UPSERT ( comment"
    ));
    assert_eq!(placeholders("SELECT '-- :not_a_param' FROM t WHERE a = :a"), vec!["a"]);
}

#[test]
fn extracts_placeholders() {
    assert_eq!(
        placeholders("UPDATE t SET a = :a, b = :b WHERE c = :c AND d = :a"),
        vec!["a", "b", "c"]
    );
    // Casts (`::int`) are not placeholders.
    assert_eq!(placeholders("SELECT count(*)::int FROM t"), Vec::<String>::new());
}

#[test]
fn checked_form_validates_and_expands_to_str() {
    let checked = |q: &'static str| sql(q).unwrap();
    let q: &str = checked("UPDATE users SET status = :status UPSERT WHERE user_id = :user_id");
    assert_eq!(
        q,
        "UPDATE users SET status = :status UPSERT WHERE user_id = :user_id"
    );
    let returning: &str =
        checked("UPDATE users SET status = :status UPSERT RETURN AFTER WHERE user_id = :user_id");
    assert!(returning.contains("UPSERT RETURN AFTER WHERE"));
    let plain: &str = checked("UPDATE users SET status = :status WHERE user_id = :user_id");
    assert!(!plain.contains("UPSERT"));
    let select: &str = checked("SELECT * FROM orders WHERE total > 0 ORDER BY total DESC");
    assert!(select.contains("ORDER BY"));

    let del: &str = checked("DELETE FROM users WHERE user_id = :user_id");
    assert!(del.contains("DELETE"));
    let ins: &str = checked("INSERT INTO users SET name = :name");
    assert!(ins.contains("INSERT INTO"));
    let edge: &str = checked(
        "CREATE EDGE LIKES FROM (SELECT FROM users WHERE user_id = :a) TO (SELECT FROM posts WHERE post_id = :b)",
    );
    assert!(edge.contains(" TO "));

    let user_id = 7i64;
    let (q, p) = (
        checked("SELECT FROM orders WHERE user_id = :user_id"),
        Params::from_pairs(vec![("user_id", user_id)]),
    );
    assert!(q.contains(":user_id"));
    assert!(p.0.contains_key("user_id"));
}

#[test]
fn an_empty_statement_is_refused() {
    assert_eq!(validate("").len(), 1);
    assert_eq!(validate("  \n\t ").len(), 1);
    // A no-break space is white space beyond ASCII.
    assert_eq!(validate("\u{a0}").len(), 1);
}

#[test]
fn stripping_keeps_positions_and_is_stable() {
    let sql = "SELECT 'a''b' FROM t -- tail\nWHERE `x y` = 1 /* c */ AND \"q\" = :p";
    let mut errors = Vec::new();
    let clean = strip_literals_and_comments(sql, &mut errors);
    assert!(errors.is_empty());
    assert_eq!(clean.chars().count(), sql.chars().count());
    assert_eq!(strip_literals_and_comments(&clean, &mut errors), clean);
    assert!(clean.starts_with("SELECT "));
    assert!(!clean.contains('a'));
    assert!(clean.contains(":p"));
}

#[test]
fn literal_bodies_do_not_change_the_verdict() {
    for body in ["", "x", "WHERE ( :fake", "-- /* `", "a;b"] {
        let sql = format!("DELETE FROM t WHERE note = '{body}' AND id = :id");
        assert!(ok(&sql), "{sql}");
        let sql = format!("DELETE FROM t RETURN '{body}'");
        assert_eq!(validate(&sql), validate("DELETE FROM t RETURN ''"));
        // Behind a literal that ends in a quote, and before one left open.
        let sql = format!("UPDATE t SET a = 'x''{body}' , b = (:set 'y");
        assert_eq!(validate(&sql), validate("UPDATE t SET a = 'x''' , b = (:set 'y"));
        assert_eq!(validate(&sql).len(), 3);
        assert_eq!(placeholders(&sql), ["set"]);
    }
}

#[test]
fn each_check_reports_on_its_own() {
    let upper = |s: &str| words(s);
    let mut e = Vec::new();
    check_balance("(a]", &mut e);
    assert!(!e.is_empty());

    let mut e = Vec::new();
    check_single_statement("SELECT 1; SELECT 2", &mut e);
    assert_eq!(e.len(), 1);
    let mut e = Vec::new();
    check_single_statement("SELECT 1 ;  ", &mut e);
    assert!(e.is_empty());

    let mut e = Vec::new();
    check_update_order(&upper("UPDATE t SET a = 1 WHERE b = 2 UPSERT"), &mut e);
    assert!(e.iter().any(|m| m.contains("UPSERT after WHERE")));

    let mut e = Vec::new();
    check_delete(&upper("DELETE FROM t"), &mut e);
    assert_eq!(e.len(), 1);

    let mut e = Vec::new();
    check_insert(&upper("INSERT t SET a = 1"), &mut e);
    assert_eq!(e.len(), 1);

    let mut e = Vec::new();
    check_create_edge(&upper("CREATE EDGE e FROM a"), &mut e);
    assert_eq!(e.len(), 1);
    let mut e = Vec::new();
    check_create_edge(&upper("CREATE EDGE e"), &mut e);
    assert_eq!(e.len(), 1);

    let mut e = Vec::new();
    check_reserved_placeholders("UPDATE t SET a = :before", &mut e);
    assert!(e.iter().any(|m| m.contains(":before")));
}

#[test]
fn an_accepted_upsert_has_its_clauses_in_order() {
    let sql = "UPDATE t SET a = :a UPSERT RETURN AFTER WHERE b = :b";
    assert!(ok(sql));
    let w = words(sql);
    let at = |k: &str| w.iter().position(|x| x == k).unwrap();
    assert!(at("SET") < at("UPSERT"));
    assert!(at("UPSERT") < at("RETURN"));
    assert!(at("RETURN") < at("WHERE"));
}

#[test]
fn the_checked_form_lists_every_problem() {
    let e = sql("UPDATE t SET a = :after WHERE (b = 1").unwrap_err();
    assert_eq!(e, validate("UPDATE t SET a = :after WHERE (b = 1").join("\n"));
    assert_eq!(e.lines().count(), 2);
    assert!(e.starts_with("unclosed `(`\nplaceholder `:after` collides"), "{e}");
    assert_eq!(sql(" \n").unwrap_err(), "empty SQL statement");
}
