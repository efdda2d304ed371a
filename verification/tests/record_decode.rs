//! Rows decode from wire records: nested records, lists of links, renames, custom
//! conversions, defaults, flattened fields and `@rid` fallbacks. The impls below are what the
//! decode derive expands to for each row.

use std::borrow::Cow;
use std::collections::{BTreeMap, BTreeSet, HashMap, HashSet};

use arcadedb_protocol::record::derived::{
    get_opt_bytes_or, get_opt_or, get_opt_with_or, get_synth_opt_or,
};
use arcadedb_protocol::encode::{embedded_v, f64_v, i32_v, i64_v, link_v, str_v};
use arcadedb_protocol::record::derived::{
    any_visible, child_taken, class_of, decode_rest, get_synth, get_synth_opt, get_synth_or,
    record_fields, rid_of, variant_tag, variant_text,
};
use arcadedb_protocol::record::{
    get, get_bytes, get_opt, get_opt_bytes, get_or, get_with, get_with_or, kind_name,
    set_elements, Number, Real64,
};
use arcadedb_protocol::{
    from_map_via_value, grpc_value_to_json, CalendarDate, DateTimeUtc, DecodeFromMap,
    FromGrpcValue, GrpcDecimal, GrpcEmbedded, GrpcLink, GrpcList, GrpcMap, GrpcRecord, GrpcValue,
    Json, Kind, Link, PropMap, QueryResult, RecordDecodeError, Timestamp,
};

type Decoded<T> = Result<T, RecordDecodeError>;
type Props = PropMap<GrpcValue>;

fn float(r: Real64) -> f64 {
    match r.0 {
        Number::Single(b) => f64::from(f32::from_bits(b)),
        Number::Double(b) => f64::from_bits(b),
        Number::Integer(n) => n as f64,
    }
}

fn from_record<'a, T: DecodeFromMap<'a>>(rec: &'a GrpcRecord) -> Decoded<T> {
    T::from_map(&rec.properties, &[], rid_of(rec), class_of(rec))
}

fn from_value<'a, T: DecodeFromMap<'a>>(v: &'a GrpcValue) -> Decoded<T> {
    T::from_map(record_fields(v, "embedded record")?, &[], None, None)
}

// ---------------------------------------------------------------------------
// Rows
// ---------------------------------------------------------------------------

/// A `table:key` identity that plugs in through a custom conversion.
#[derive(Debug, Clone, PartialEq)]
struct TestId(String);

impl TestId {
    fn from_value(v: &GrpcValue) -> Decoded<Self> {
        let s = String::from_grpc_value(v)?;
        if !s.contains(':') {
            return Err(RecordDecodeError::conversion(&format!(
                "invalid TestId `{s}`: expected `table:key`"
            )));
        }
        Ok(TestId(s))
    }
}

#[derive(Debug, Clone, PartialEq)]
struct Caption {
    text: String,
    media_ref: String,
}

impl<'de> DecodeFromMap<'de> for Caption {
    fn from_map(
        props: &'de Props,
        taken: &[&str],
        _rid: Option<&'de String>,
        _class: Option<&'de String>,
    ) -> Decoded<Self> {
        from_map_via_value(props, taken)
    }
}

impl<'de> FromGrpcValue<'de> for Caption {
    fn from_grpc_value(v: &'de GrpcValue) -> Decoded<Self> {
        let read = || match &v.kind {
            Some(Kind::EmbeddedValue(e)) => {
                let text = get(&e.fields, &[], "text")?;
                let media_ref = get(&e.fields, &[], "media_ref")?;
                Ok(Caption { text, media_ref })
            }
            _ => Err(RecordDecodeError::type_mismatch("embedded record", kind_name(&v.kind))),
        };
        read().map_err(|e: RecordDecodeError| e.with_field("caption"))
    }
}

#[derive(Debug, Clone, PartialEq)]
struct Block {
    content_rid: String,
    content_type: String,
    hint: Option<String>,
}

impl<'de> DecodeFromMap<'de> for Block {
    fn from_map(
        props: &'de Props,
        taken: &[&str],
        _rid: Option<&'de String>,
        _class: Option<&'de String>,
    ) -> Decoded<Self> {
        Ok(Block {
            content_rid: get(props, taken, "content_rid")?,
            content_type: get(props, taken, "content_type")?,
            hint: get_opt(props, taken, "hint")?,
        })
    }
}

impl<'de> FromGrpcValue<'de> for Block {
    fn from_grpc_value(v: &'de GrpcValue) -> Decoded<Self> {
        from_value(v)
    }
}

#[derive(Debug, Clone, Copy, PartialEq, Eq)]
enum Priority {
    Low,
    Medium,
    Hard,
}

impl<'de> FromGrpcValue<'de> for Priority {
    fn from_grpc_value(v: &'de GrpcValue) -> Decoded<Self> {
        match variant_text(v)? {
            "low" => Ok(Priority::Low),
            "medium" => Ok(Priority::Medium),
            "hard" => Ok(Priority::Hard),
            other => Err(RecordDecodeError::unknown_variant(other)),
        }
    }
}

#[derive(Debug, Clone, Copy, PartialEq, Eq)]
enum Format {
    RichText,
    PlainText,
}

impl<'de> FromGrpcValue<'de> for Format {
    fn from_grpc_value(v: &'de GrpcValue) -> Decoded<Self> {
        match variant_text(v)? {
            "rich-text" => Ok(Format::RichText),
            "plain-text" => Ok(Format::PlainText),
            other => Err(RecordDecodeError::unknown_variant(other)),
        }
    }
}

#[derive(Debug, Clone, PartialEq)]
struct Article {
    id: TestId,
    title: String,
    sequence: u32,
    priority: Priority,
    format: Format,
    has_review: bool,
    synced_at: String,
    tags: Vec<String>,
    optional_note: Option<String>,
    sections: Vec<Block>,
    caption: Option<Caption>,
    rid: Option<String>,
}

fn default_synced() -> String {
    "1970-01-01T00:00:00Z".to_string()
}

impl<'de> DecodeFromMap<'de> for Article {
    fn from_map(
        props: &'de Props,
        taken: &[&str],
        rid: Option<&'de String>,
        _class: Option<&'de String>,
    ) -> Decoded<Self> {
        Ok(Article {
            id: get_with(props, taken, "logical_key", TestId::from_value)?,
            title: get(props, taken, "title")?,
            sequence: get(props, taken, "sequence")?,
            priority: get(props, taken, "priority")?,
            format: get(props, taken, "format")?,
            has_review: get_or(props, taken, "has_review", Default::default)?,
            synced_at: get_or(props, taken, "synced_at", default_synced)?,
            tags: get(props, taken, "tags")?,
            optional_note: get_opt(props, taken, "optional_note")?,
            sections: get(props, taken, "sections")?,
            caption: get_opt(props, taken, "caption")?,
            rid: get_synth_opt(props, "@rid", rid)?,
        })
    }
}

impl<'de> FromGrpcValue<'de> for Article {
    fn from_grpc_value(v: &'de GrpcValue) -> Decoded<Self> {
        from_value(v)
    }
}

impl<'a> TryFrom<&'a GrpcRecord> for Article {
    type Error = RecordDecodeError;

    fn try_from(rec: &'a GrpcRecord) -> Decoded<Self> {
        from_record(rec)
    }
}

impl TryFrom<GrpcRecord> for Article {
    type Error = RecordDecodeError;

    fn try_from(rec: GrpcRecord) -> Decoded<Self> {
        from_record(&rec)
    }
}

/// A flattened base struct and a sibling.
#[derive(Debug, Clone, PartialEq)]
struct ArticleRow {
    article: Article,
    score: f64,
}

impl<'a> TryFrom<&'a GrpcRecord> for ArticleRow {
    type Error = RecordDecodeError;

    fn try_from(rec: &'a GrpcRecord) -> Decoded<Self> {
        let rest = child_taken(&[], &["score"]);
        Ok(ArticleRow {
            article: decode_rest(&rec.properties, &rest, "article")?,
            score: float(get_or(&rec.properties, &[], "score", || Real64(Number::Double(0)))?),
        })
    }
}

#[derive(Debug, Clone, PartialEq)]
struct TranscriptLine {
    author: String,
    media_ref: String,
}

impl<'de> FromGrpcValue<'de> for TranscriptLine {
    fn from_grpc_value(v: &'de GrpcValue) -> Decoded<Self> {
        let props = record_fields(v, "embedded record")?;
        Ok(TranscriptLine {
            author: get(props, &[], "author")?,
            media_ref: get_or(props, &[], "media_ref", Default::default)?,
        })
    }
}

#[derive(Debug, Clone, PartialEq)]
enum ContentStyle {
    Choice {
        media_ref: String,
        question: Option<String>,
        options: Vec<String>,
        correct_index: u32,
    },
    Playlist {
        lines: Vec<TranscriptLine>,
        options: Vec<String>,
        correct_index: u32,
    },
    Repeat {
        media_ref: String,
    },
}

impl<'de> FromGrpcValue<'de> for ContentStyle {
    fn from_grpc_value(v: &'de GrpcValue) -> Decoded<Self> {
        let props = record_fields(v, "record/map")?;
        match variant_tag(props, "type", &[])? {
            "choice" => Ok(ContentStyle::Choice {
                media_ref: get(props, &[], "media_ref")?,
                question: get_opt(props, &[], "question")?,
                options: get(props, &[], "options")?,
                correct_index: get(props, &[], "correct_index")?,
            }),
            "playlist" => Ok(ContentStyle::Playlist {
                lines: get(props, &[], "lines")?,
                options: get(props, &[], "options")?,
                correct_index: get(props, &[], "correct_index")?,
            }),
            "repeat" => Ok(ContentStyle::Repeat { media_ref: get(props, &[], "media_ref")? }),
            other => Err(RecordDecodeError::unknown_variant(other)),
        }
    }
}

#[derive(Debug, Clone, PartialEq)]
enum InputStyle {
    SelectedIndex { selected_index: u32 },
    Order { order: Vec<String> },
    Transcript { transcript: String },
}

impl<'de> FromGrpcValue<'de> for InputStyle {
    fn from_grpc_value(v: &'de GrpcValue) -> Decoded<Self> {
        let props = record_fields(v, "record/map")?;
        match variant_tag(props, "kind", &[])? {
            "selected_index" => Ok(InputStyle::SelectedIndex {
                selected_index: get(props, &[], "selected_index")?,
            }),
            "ordering" => Ok(InputStyle::Order { order: get(props, &[], "order")? }),
            "transcript" => {
                Ok(InputStyle::Transcript { transcript: get(props, &[], "transcript")? })
            }
            other => Err(RecordDecodeError::unknown_variant(other)),
        }
    }
}

#[derive(Debug, Clone, PartialEq)]
enum RuleStyle {
    CategoryFilter {
        required_label_ids: Vec<i32>,
        excluded_label_ids: Vec<i32>,
    },
    RegionGraph {
        region_code: String,
    },
}

impl<'de> DecodeFromMap<'de> for RuleStyle {
    fn from_map(
        props: &'de Props,
        taken: &[&str],
        _rid: Option<&'de String>,
        _class: Option<&'de String>,
    ) -> Decoded<Self> {
        match variant_tag(props, "type", taken)? {
            "category_filter" => Ok(RuleStyle::CategoryFilter {
                required_label_ids: get_or(props, taken, "required_label_ids", Vec::new)?,
                excluded_label_ids: get_or(props, taken, "excluded_label_ids", Vec::new)?,
            }),
            "region_graph" => {
                Ok(RuleStyle::RegionGraph { region_code: get(props, taken, "region_code")? })
            }
            other => Err(RecordDecodeError::unknown_variant(other)),
        }
    }
}

#[derive(Debug, Clone, PartialEq)]
struct FilterSpec {
    strategy: RuleStyle,
    max_capacity: Option<i32>,
}

impl<'de> FromGrpcValue<'de> for FilterSpec {
    fn from_grpc_value(v: &'de GrpcValue) -> Decoded<Self> {
        let props = record_fields(v, "embedded record")?;
        let rest = child_taken(&[], &["max_capacity"]);
        Ok(FilterSpec {
            strategy: decode_rest(props, &rest, "strategy")?,
            max_capacity: get_opt(props, &[], "max_capacity")?,
        })
    }
}

#[derive(Debug, Clone, PartialEq, Default)]
struct LabelSet(Vec<String>);

impl LabelSet {
    fn from_grpc(v: &GrpcValue) -> Decoded<Self> {
        Ok(LabelSet(Vec::<String>::from_grpc_value(v)?))
    }
}

fn media_files(rec: &GrpcRecord) -> Decoded<LabelSet> {
    get_with_or(&rec.properties, &[], "media_files", LabelSet::from_grpc, Default::default)
}

/// A transparent newtype.
#[derive(Debug, Clone, PartialEq)]
struct Pk(String);

impl<'de> FromGrpcValue<'de> for Pk {
    fn from_grpc_value(v: &'de GrpcValue) -> Decoded<Self> {
        Ok(Pk(String::from_grpc_value(v)?))
    }
}

// ---------------------------------------------------------------------------
// Helpers
// ---------------------------------------------------------------------------

fn gv(kind: Kind) -> GrpcValue {
    GrpcValue {
        kind: Some(kind),
        logical_type: String::new(),
    }
}

/// A value whose payload is unset — the wire's explicit null.
fn gv_null() -> GrpcValue {
    GrpcValue {
        kind: None,
        logical_type: String::new(),
    }
}

fn list(vals: Vec<GrpcValue>) -> GrpcValue {
    gv(Kind::ListValue(GrpcList { values: vals }))
}

fn props(entries: Vec<(&str, GrpcValue)>) -> Props {
    let mut m = PropMap::new();
    for (k, v) in entries {
        m.insert(k.to_string(), v);
    }
    m
}

fn map_v(entries: Vec<(&str, GrpcValue)>) -> GrpcValue {
    gv(Kind::MapValue(GrpcMap { entries: props(entries) }))
}

fn record(entries: Vec<(&str, GrpcValue)>) -> GrpcRecord {
    GrpcRecord {
        rid: String::new(),
        class: String::new(),
        properties: props(entries),
    }
}

fn link(rid: &str) -> GrpcValue {
    gv(Kind::LinkValue(GrpcLink {
        rid: rid.to_string(),
        class: String::new(),
    }))
}

fn block_a() -> GrpcValue {
    embedded_v(
        "block",
        vec![
            ("content_rid", str_v("#11:0")),
            ("content_type", str_v("entry")),
            ("hint", str_v("a hint")),
        ],
    )
}

fn block_b() -> GrpcValue {
    embedded_v(
        "block",
        vec![
            ("content_rid", str_v("#11:1")),
            ("content_type", str_v("note")),
        ],
    )
}

fn article_record() -> GrpcRecord {
    GrpcRecord {
        rid: "#12:0".to_string(),
        class: "article".to_string(),
        properties: props(vec![
            ("logical_key", str_v("article:root")),
            ("title", str_v("Intro to Rust")),
            ("sequence", i32_v(1)),
            ("priority", str_v("low")),
            ("format", str_v("rich-text")),
            ("tags", list(vec![str_v("a"), str_v("b")])),
            ("sections", list(vec![block_a(), block_b()])),
            (
                "caption",
                embedded_v(
                    "caption",
                    vec![
                        ("text", str_v("Hello!")),
                        ("media_ref", str_v("media://1")),
                    ],
                ),
            ),
        ]),
    }
}

// ---------------------------------------------------------------------------
// Tests
// ---------------------------------------------------------------------------

#[test]
fn decodes_mixed_scalars_lists_and_nested_embeds() {
    let rec = article_record();
    let article = Article::try_from(&rec).expect("decode article");

    assert_eq!(article.id, TestId("article:root".into()));
    assert_eq!(article.title, "Intro to Rust");
    assert_eq!(article.sequence, 1u32);
    assert_eq!(article.tags, vec!["a".to_string(), "b".to_string()]);
    assert_eq!(article.priority, Priority::Low);
    assert_eq!(article.format, Format::RichText);
    assert_eq!(article.sections.len(), 2);
    assert_eq!(article.sections[0].content_rid, "#11:0");
    assert_eq!(article.sections[0].hint.as_deref(), Some("a hint"));
    // Second block lacks `hint` (optional) — and it's `Option<String>`:
    assert_eq!(article.sections[1].hint, None);
    assert_eq!(
        article.caption.as_ref().map(|p| p.text.as_str()),
        Some("Hello!")
    );
}

#[test]
fn missing_optional_and_defaulted_fields_resolve() {
    let rec = article_record();
    let article = Article::try_from(&rec).unwrap();

    // Absent but defaulted.
    assert!(!article.has_review);
    assert_eq!(article.synced_at, "1970-01-01T00:00:00Z");
    // Absent + optional → None (not an error).
    assert_eq!(article.optional_note, None);
    // Synthetic @rid from GrpcRecord.rid when the query omitted it.
    assert_eq!(article.rid.as_deref(), Some("#12:0"));
}

#[test]
fn synthetic_rid_prefers_the_property() {
    let mut rec = article_record();
    rec.properties.insert("@rid".to_string(), str_v("#99:99"));
    let article = Article::try_from(&rec).unwrap();
    assert_eq!(article.rid.as_deref(), Some("#99:99"));
}

#[test]
fn owned_and_borrowed_try_from_agree() {
    let rec = article_record();
    let borrowed = Article::try_from(&rec).unwrap();
    let owned: Article = rec.clone().try_into().unwrap();
    assert_eq!(borrowed, owned);
}

#[test]
fn flatten_composes_base_struct_with_siblings() {
    let mut rec = article_record();
    rec.properties.insert("score".to_string(), f64_v(4.5f64.to_bits()));
    let row = ArticleRow::try_from(&rec).unwrap();
    assert_eq!(row.score, 4.5);
    assert_eq!(row.article.title, "Intro to Rust");
    assert_eq!(row.article.sequence, 1u32);
}

#[test]
fn missing_required_field_is_an_error() {
    let mut rec2 = article_record().clone();
    rec2.properties.remove("title");

    let err = Article::try_from(&rec2).unwrap_err();
    match &err {
        RecordDecodeError::MissingField { path } => assert_eq!(path, "title"),
        other => panic!("expected MissingField, got {other:?}"),
    }
    assert!(err.to_string().contains("missing property `title`"));
}

#[test]
fn type_mismatch_error_names_field_and_kinds() {
    let mut rec = article_record();
    rec.properties.insert("title".to_string(), i64_v(42));
    let err = Article::try_from(&rec).unwrap_err();
    match &err {
        RecordDecodeError::TypeMismatch {
            path,
            expected,
            actual,
        } => {
            assert_eq!(path, "title");
            assert_eq!(*expected, "string");
            assert_eq!(*actual, "int64");
        }
        other => panic!("expected TypeMismatch, got {other:?}"),
    }
    assert!(err
        .to_string()
        .contains("property `title`: expected string, got int64"));
}

#[test]
fn list_element_error_reports_position() {
    let mut rec = article_record();
    rec.properties
        .insert("tags".to_string(), list(vec![str_v("ok"), i64_v(7)]));
    let err = Article::try_from(&rec).unwrap_err();
    let msg = err.to_string();
    assert!(msg.contains("list[1]"), "unexpected message: {msg}");
}

#[test]
fn nested_embedded_from_value_decodes() {
    // An article delivered as an embedded value (inline projection).
    let mut props = article_record().properties;
    props.remove("caption");
    let embedded = gv(Kind::EmbeddedValue(GrpcEmbedded {
        class: "article".into(),
        fields: props,
    }));
    let article = Article::from_grpc_value(&embedded).unwrap();
    assert_eq!(article.title, "Intro to Rust");
}

#[test]
fn timestamp_decodes_from_protobuf_time() {
    let rec = record(vec![(
        "created_at",
        gv(Kind::TimestampValue(Timestamp {
            seconds: 1_700_000_000,
            nanos: 0,
        })),
    )]);
    let created_at: DateTimeUtc = get(&rec.properties, &[], "created_at").unwrap();
    let likely_year: Option<i64> = get_opt(&rec.properties, &[], "likely_year").unwrap();
    let expected = DateTimeUtc::from_timestamp(1_700_000_000, 0).unwrap();
    assert_eq!(created_at, expected);
    assert_eq!(likely_year, None);
}

#[test]
fn unknown_enum_variant_is_reported() {
    let mut rec = article_record();
    rec.properties
        .insert("priority".to_string(), str_v("impossible"));
    let err = Article::try_from(&rec).unwrap_err();
    assert!(err.to_string().contains("unknown variant `impossible`"));
    for (name, priority) in [("medium", Priority::Medium), ("hard", Priority::Hard)] {
        assert_eq!(Priority::from_grpc_value(&str_v(name)).unwrap(), priority);
    }
    assert_eq!(Format::from_grpc_value(&str_v("plain-text")).unwrap(), Format::PlainText);
    assert_eq!(
        Priority::from_grpc_value(&i64_v(1)).unwrap_err(),
        RecordDecodeError::type_mismatch("string", "int64")
    );
}

#[test]
fn custom_with_reports_the_error() {
    let mut rec = article_record();
    rec.properties
        .insert("logical_key".to_string(), str_v("no-colon-here"));
    let err = Article::try_from(&rec).unwrap_err();
    assert!(err.to_string().contains("invalid TestId `no-colon-here`"));
}

#[test]
fn json_value_catch_all_accepts_any_kind() {
    let rec = record(vec![("content", str_v("x"))]);
    let content =
        get_with_or(&rec.properties, &[], "content", |v| Ok(grpc_value_to_json(v)), || Json::Null)
            .unwrap();
    assert_eq!(content, Json::Text("x".to_string()));
}

#[test]
fn internally_tagged_enum_decodes_struct_variants() {
    let mc = map_v(vec![
        ("type", str_v("choice")),
        ("media_ref", str_v("media://x")),
        ("question", str_v("Which?")),
        ("options", list(vec![str_v("a"), str_v("b")])),
        ("correct_index", i32_v(0)),
    ]);
    let got = ContentStyle::from_grpc_value(&mc).unwrap();
    assert_eq!(
        got,
        ContentStyle::Choice {
            media_ref: "media://x".into(),
            question: Some("Which?".into()),
            options: vec!["a".into(), "b".into()],
            correct_index: 0,
        }
    );
}

#[test]
fn internally_tagged_enum_decodes_nested_variant() {
    let lac = map_v(vec![
        ("type", str_v("playlist")),
        (
            "lines",
            list(vec![
                embedded_v("transcript_line", vec![("author", str_v("A"))]),
                embedded_v(
                    "transcript_line",
                    vec![("author", str_v("B")), ("media_ref", str_v("a:1"))],
                ),
            ]),
        ),
        ("options", list(vec![str_v("x")])),
        ("correct_index", i32_v(1)),
    ]);
    let got = ContentStyle::from_grpc_value(&lac).unwrap();
    match got {
        ContentStyle::Playlist {
            lines,
            correct_index,
            ..
        } => {
            assert_eq!(lines.len(), 2);
            assert_eq!(lines[0].author, "A");
            assert_eq!(lines[0].media_ref, ""); // defaulted
            assert_eq!(lines[1].author, "B");
            assert_eq!(lines[1].media_ref, "a:1");
            assert_eq!(correct_index, 1);
        }
        other => panic!("expected Playlist, got {other:?}"),
    }
    assert_eq!(
        ContentStyle::from_grpc_value(&map_v(vec![
            ("type", str_v("repeat")),
            ("media_ref", str_v("m")),
        ]))
        .unwrap(),
        ContentStyle::Repeat { media_ref: "m".into() }
    );
}

#[test]
fn internally_tagged_enum_rename_all_snake_case() {
    let v = map_v(vec![
        ("kind", str_v("selected_index")),
        ("selected_index", i32_v(3)),
    ]);
    assert_eq!(
        InputStyle::from_grpc_value(&v).unwrap(),
        InputStyle::SelectedIndex { selected_index: 3 }
    );
    let t = map_v(vec![
        ("kind", str_v("transcript")),
        ("transcript", str_v("hi")),
    ]);
    assert_eq!(
        InputStyle::from_grpc_value(&t).unwrap(),
        InputStyle::Transcript {
            transcript: "hi".into()
        }
    );
    let o = map_v(vec![("kind", str_v("ordering")), ("order", list(vec![]))]);
    assert_eq!(InputStyle::from_grpc_value(&o).unwrap(), InputStyle::Order { order: vec![] });
}

#[test]
fn internally_tagged_enum_missing_tag_is_missing_field() {
    let v = map_v(vec![("options", list(vec![str_v("a")]))]);
    let err = ContentStyle::from_grpc_value(&v).unwrap_err();
    assert_eq!(
        err,
        RecordDecodeError::MissingField {
            path: "type".to_string()
        }
    );
}

#[test]
fn internally_tagged_enum_unknown_variant_reported() {
    let v = map_v(vec![("type", str_v("essay"))]);
    let err = ContentStyle::from_grpc_value(&v).unwrap_err();
    assert!(err.to_string().contains("unknown variant `essay`"));
    // A tag that is no text, and a value that is no record.
    let v = map_v(vec![("type", i64_v(1))]);
    assert_eq!(
        ContentStyle::from_grpc_value(&v).unwrap_err(),
        RecordDecodeError::type_mismatch("string", "int64")
    );
    assert_eq!(
        ContentStyle::from_grpc_value(&i64_v(1)).unwrap_err(),
        RecordDecodeError::type_mismatch("record/map", "int64")
    );
}

#[test]
fn flattened_internally_tagged_enum_decodes() {
    let spec = embedded_v(
        "filter_spec",
        vec![
            ("type", str_v("category_filter")),
            ("required_label_ids", list(vec![i32_v(1), i32_v(2)])),
            ("max_capacity", i32_v(50)),
        ],
    );
    let got = FilterSpec::from_grpc_value(&spec).unwrap();
    assert_eq!(
        got,
        FilterSpec {
            strategy: RuleStyle::CategoryFilter {
                required_label_ids: vec![1, 2],
                excluded_label_ids: vec![],
            },
            max_capacity: Some(50),
        }
    );
    // The discriminator must be visible, and errors name the flattened field.
    let hidden = props(vec![("type", str_v("region_graph")), ("region_code", str_v("r"))]);
    assert_eq!(
        RuleStyle::from_map(&hidden, &[], None, None).unwrap(),
        RuleStyle::RegionGraph { region_code: "r".into() }
    );
    assert_eq!(
        decode_rest::<RuleStyle>(&hidden, &["type"], "strategy").unwrap_err(),
        RecordDecodeError::missing_field("strategy.type")
    );
}

#[test]
fn with_default_uses_default_when_absent() {
    let rec = record(vec![]);
    assert_eq!(media_files(&rec).unwrap(), LabelSet::default());
}

#[test]
fn with_default_decodes_present_property() {
    let rec = record(vec![("media_files", list(vec![str_v("m1"), str_v("m2")]))]);
    assert_eq!(
        media_files(&rec).unwrap(),
        LabelSet(vec!["m1".to_string(), "m2".to_string()])
    );
}

#[test]
fn float_accepts_integer_and_float_kinds() {
    for (val, expected) in [
        (i32_v(42), 42.0),
        (i64_v(-7), -7.0),
        (f64_v(4.5f64.to_bits()), 4.5),
        (gv(Kind::FloatValue(2.5f32.to_bits())), 2.5),
    ] {
        let rec = record(vec![("score", val)]);
        assert_eq!(float(rec.get::<Real64>("score").unwrap()), expected);
    }
    assert_eq!(
        record(vec![("score", str_v("high"))]).get::<Real64>("score").unwrap_err().to_string(),
        "property `score`: expected f64, got string"
    );
}

#[test]
fn string_field_accepts_timestamp_and_decimal() {
    let rec = record(vec![
        (
            "issued_at",
            gv(Kind::TimestampValue(Timestamp {
                seconds: 1_700_000_000,
                nanos: 0,
            })),
        ),
        (
            "amount",
            gv(Kind::DecimalValue(GrpcDecimal {
                scale: 2,
                unscaled: 12345,
                unscaled_bytes: vec![],
            })),
        ),
    ]);
    assert_eq!(
        rec.get::<String>("issued_at").unwrap(),
        chrono::DateTime::from_timestamp(1_700_000_000, 0)
            .unwrap()
            .to_rfc3339()
    );
    assert_eq!(rec.get::<String>("issued_at").unwrap(), "2023-11-14T22:13:20+00:00");
    assert_eq!(rec.get::<String>("amount").unwrap(), "12345e-2");
}

#[test]
fn datetime_field_accepts_string_date() {
    let rec = record(vec![("at", str_v("2024-05-01T10:00:00Z"))]);
    let at = rec.get::<DateTimeUtc>("at").unwrap();
    let expected = chrono::DateTime::parse_from_rfc3339("2024-05-01T10:00:00Z").unwrap();
    assert_eq!(at.timestamp(), expected.timestamp());
    assert_eq!(at.timestamp_subsec_nanos(), expected.timestamp_subsec_nanos());

    // Non-timestamp text is a conversion error, not a type mismatch.
    let bad = record(vec![("at", str_v("not-a-date"))]);
    let err = bad.get::<DateTimeUtc>("at").unwrap_err();
    assert!(err
        .to_string()
        .contains("invalid timestamp string `not-a-date`"));
}

#[test]
fn char_decodes_single_char_strings() {
    assert_eq!(char::from_grpc_value(&str_v("x")).unwrap(), 'x');
    let err = char::from_grpc_value(&str_v("ab")).unwrap_err();
    assert_eq!(
        err,
        RecordDecodeError::type_mismatch("single-char string", "string")
    );
}

#[test]
fn int_field_accepts_zero_scale_decimal() {
    let rec = record(vec![(
        "seq",
        gv(Kind::DecimalValue(GrpcDecimal {
            scale: 0,
            unscaled: 42,
            unscaled_bytes: vec![],
        })),
    )]);
    assert_eq!(rec.get::<i32>("seq").unwrap(), 42);

    // A scaled decimal is not an int.
    let scaled = record(vec![(
        "seq",
        gv(Kind::DecimalValue(GrpcDecimal {
            scale: 2,
            unscaled: 4242,
            unscaled_bytes: vec![],
        })),
    )]);
    let err = scaled.get::<i32>("seq").unwrap_err();
    assert!(err.to_string().contains("expected i32, got decimal"));
}

#[test]
fn newtype_field_delegates_to_inner() {
    let rec = record(vec![("id", str_v("article:root"))]);
    assert_eq!(rec.get::<Pk>("id").unwrap(), Pk("article:root".into()));

    // And through a list of the wrapper type.
    let v = list(vec![str_v("a:1"), str_v("b:2")]);
    assert_eq!(
        Vec::<Pk>::from_grpc_value(&v).unwrap(),
        vec![Pk("a:1".into()), Pk("b:2".into())]
    );
}

#[test]
fn bytes_field_decodes_blob_and_int_list() {
    let blob = |r: &GrpcRecord| get_bytes(&r.properties, &[], "data");
    let rec = record(vec![("data", gv(Kind::BytesValue(vec![1, 2, 3])))]);
    assert_eq!(blob(&rec).unwrap(), vec![1u8, 2, 3]);

    // Lists of small ints are accepted too.
    let ints = record(vec![("data", list(vec![i32_v(65), i64_v(66), i32_v(67)]))]);
    assert_eq!(blob(&ints).unwrap(), vec![65u8, 66, 67]);

    // Optional blob: absent → `None`.
    let empty = record(vec![("data", gv(Kind::BytesValue(vec![])))]);
    assert_eq!(get_opt_bytes(&empty.properties, &[], "extra").unwrap(), None);

    // Out-of-range ints are rejected — no silent truncation.
    let big = record(vec![("data", list(vec![i64_v(300)]))]);
    let err = blob(&big).unwrap_err();
    assert!(err.to_string().contains("expected u8, got int64"));
}

#[test]
fn localized_map_and_linked_rid_strings_decode() {
    let rec = record(vec![
        (
            "name_translations",
            map_v(vec![
                ("en", str_v("Arcadia")),
                ("pt", str_v("Arc\u{e1}dia")),
            ]),
        ),
        ("links", list(vec![link("#9:1"), link("#9:2")])),
    ]);
    let names: HashMap<String, String> = rec
        .get::<PropMap<String>>("name_translations")
        .unwrap()
        .into_entries()
        .into_iter()
        .collect();
    assert_eq!(
        names,
        HashMap::from([
            ("en".to_string(), "Arcadia".to_string()),
            ("pt".to_string(), "Arc\u{e1}dia".to_string()),
        ])
    );
    // Linked RIDs decode as their `#bucket:pos` string.
    assert_eq!(
        rec.get::<Vec<String>>("links").unwrap(),
        vec!["#9:1".to_string(), "#9:2".to_string()]
    );
}

#[test]
fn edge_renames_and_explicit_null_option_decode() {
    let rec = GrpcRecord {
        rid: "#12:5".to_string(),
        class: "link_edge".to_string(),
        properties: props(vec![
            ("@in", link("#12:1")),
            ("@out", link("#12:2")),
            // The server serialized an explicit null — an `Option` must read it
            // as `None`, not as a type error.
            ("note", gv_null()),
        ]),
    };
    assert_eq!(rec.get::<String>("@in").unwrap(), "#12:1");
    assert_eq!(rec.get::<String>("@out").unwrap(), "#12:2");
    assert_eq!(get_opt::<String>(&rec.properties, &[], "note").unwrap(), None);
}

// ---------------------------------------------------------------------------
// Borrowed targets view the wire value's own allocations
// ---------------------------------------------------------------------------

#[derive(Debug, PartialEq)]
struct BorrowedRow<'a> {
    title: &'a str,
    tags_note: Cow<'a, str>,
}

impl<'a> TryFrom<&'a GrpcRecord> for BorrowedRow<'a> {
    type Error = RecordDecodeError;

    fn try_from(rec: &'a GrpcRecord) -> Decoded<Self> {
        Ok(BorrowedRow {
            title: get(&rec.properties, &[], "title")?,
            tags_note: get(&rec.properties, &[], "tags_note")?,
        })
    }
}

#[test]
fn borrowed_row_views_the_record_allocations() {
    let rec = GrpcRecord {
        rid: "#12:0".to_string(),
        class: "article".to_string(),
        properties: props(vec![
            ("title", str_v("Intro to Rust")),
            ("tags_note", str_v("hello")),
        ]),
    };
    let row = BorrowedRow::try_from(&rec).unwrap();

    // Values match, and the `&str` really points into the record's property
    // map — zero-copy, not a clone.
    assert_eq!(row.title, "Intro to Rust");
    assert_eq!(row.tags_note, "hello");
    assert!(matches!(row.tags_note, Cow::Borrowed(_)));
    let Some(Kind::StringValue(s)) = &rec.properties.get("title").unwrap().kind else {
        panic!("title property not a string")
    };
    assert!(std::ptr::eq(row.title.as_ptr(), s.as_ptr()));
}

#[test]
fn borrowed_list_views_the_wire_strings() {
    let rec = record(vec![("tags", list(vec![str_v("a"), str_v("b")]))]);
    let tags: Vec<&str> = rec.get("tags").unwrap();
    assert_eq!(tags, vec!["a", "b"]);
    let Some(Kind::ListValue(l)) = &rec.properties.get("tags").unwrap().kind else {
        panic!("tags property not a list")
    };
    let Some(Kind::StringValue(s0)) = &l.values[0].kind else {
        panic!("first tag not a string")
    };
    assert!(std::ptr::eq(tags[0].as_ptr(), s0.as_ptr()));
}

#[test]
fn borrowed_bytes_view_the_wire_blob() {
    let rec = record(vec![("data", gv(Kind::BytesValue(vec![1, 2, 3])))]);
    let data: &[u8] = rec.get("data").unwrap();
    assert_eq!(data, &[1u8, 2, 3]);
    let Some(Kind::BytesValue(b)) = &rec.properties.get("data").unwrap().kind else {
        panic!("data property not bytes")
    };
    assert!(std::ptr::eq(data.as_ptr(), b.as_ptr()));
}

// ---------------------------------------------------------------------------
// Flattened fields
// ---------------------------------------------------------------------------

#[derive(Debug, Clone, PartialEq)]
struct OptionalFlattenRow {
    name: String,
    extra: Option<Caption>,
}

impl<'a> TryFrom<&'a GrpcRecord> for OptionalFlattenRow {
    type Error = RecordDecodeError;

    fn try_from(rec: &'a GrpcRecord) -> Decoded<Self> {
        let rest = child_taken(&[], &["name"]);
        Ok(OptionalFlattenRow {
            name: get(&rec.properties, &[], "name")?,
            extra: if any_visible(&rec.properties, &rest) {
                Some(decode_rest(&rec.properties, &rest, "extra")?)
            } else {
                None
            },
        })
    }
}

#[test]
fn record_namespace_rename_deserialize_form_drives_the_wire_name() {
    let updated_at = |rec: &GrpcRecord| get::<String>(&rec.properties, &[], "published_at");
    let rec = record(vec![("published_at", str_v("2026-08-19"))]);
    assert_eq!(updated_at(&rec).unwrap(), "2026-08-19");

    // The Rust field name is not a second accepted key.
    let rec = record(vec![("updated_at", str_v("nope"))]);
    assert!(matches!(updated_at(&rec), Err(RecordDecodeError::MissingField { .. })));
}

#[test]
fn flatten_receives_exactly_the_untaken_properties() {
    // Sibling named field is taken; the rest flows to the flattened target.
    let mut rec = article_record();
    rec.properties.insert("score".to_string(), f64_v(4.5f64.to_bits()));
    let row = ArticleRow::try_from(&rec).unwrap();
    assert_eq!(row.score, 4.5);
    assert_eq!(row.article.title, "Intro to Rust");

    // Unknown extra properties are ignored, not rejected, and don't shadow
    // the named fields.
    rec.properties
        .insert("extra".to_string(), str_v("leftover"));
    let row = ArticleRow::try_from(&rec).unwrap();
    assert_eq!(row.article.title, "Intro to Rust");

    // Optional flatten: empty rest (everything taken) → None; populated
    // rest → Some.
    let taken = record(vec![("name", str_v("only-child"))]);
    let row = OptionalFlattenRow::try_from(&taken).unwrap();
    assert_eq!((row.name.as_str(), row.extra), ("only-child", None));

    let populated = record(vec![
        ("name", str_v("row")),
        ("text", str_v("Hello!")),
        ("media_ref", str_v("a:1")),
    ]);
    let extra = OptionalFlattenRow::try_from(&populated).unwrap().extra;
    assert_eq!(
        extra.map(|e| (e.text, e.media_ref)),
        Some(("Hello!".to_string(), "a:1".to_string()))
    );
}

#[derive(Debug, Clone, PartialEq)]
struct BorrowedFlattenRest<'a> {
    text: Cow<'a, str>,
    media_ref: Cow<'a, str>,
}

impl<'de> DecodeFromMap<'de> for BorrowedFlattenRest<'de> {
    fn from_map(
        props: &'de Props,
        taken: &[&str],
        _rid: Option<&'de String>,
        _class: Option<&'de String>,
    ) -> Decoded<Self> {
        Ok(BorrowedFlattenRest {
            text: get(props, taken, "text")?,
            media_ref: get(props, taken, "media_ref")?,
        })
    }
}

#[derive(Debug, Clone, PartialEq)]
struct BorrowedFlattenRow<'a> {
    name: String,
    rest: BorrowedFlattenRest<'a>,
}

impl<'a> TryFrom<&'a GrpcRecord> for BorrowedFlattenRow<'a> {
    type Error = RecordDecodeError;

    fn try_from(rec: &'a GrpcRecord) -> Decoded<Self> {
        let rest = child_taken(&[], &["name"]);
        Ok(BorrowedFlattenRow {
            name: get(&rec.properties, &[], "name")?,
            rest: decode_rest(&rec.properties, &rest, "rest")?,
        })
    }
}

#[test]
fn borrowed_flatten_target_views_the_record_allocations() {
    let rec = record(vec![
        ("name", str_v("row")),
        ("text", str_v("Hello!")),
        ("media_ref", str_v("a:1")),
    ]);
    let row = BorrowedFlattenRow::try_from(&rec).unwrap();
    assert_eq!(row.name, "row");
    assert_eq!(row.rest.text, Cow::Borrowed("Hello!"));
    assert_eq!(row.rest.media_ref, Cow::Borrowed("a:1"));

    // Zero-copy: the views point INTO the record's own allocations.
    let wire_plain = match &rec.properties.get("text").unwrap().kind {
        Some(Kind::StringValue(s)) => s,
        k => panic!("text not a string: {k:?}"),
    };
    match row.rest.text {
        Cow::Borrowed(s) => assert!(std::ptr::eq(s.as_ptr(), wire_plain.as_ptr())),
        Cow::Owned(_) => panic!("flatten rest must be Borrowed, not Owned"),
    }
}

// ---------------------------------------------------------------------------
// Links
// ---------------------------------------------------------------------------

#[test]
fn link_parses_and_renders_rid_strings() {
    let l = Link::parse("#12:34").unwrap();
    assert_eq!((l.bucket, l.pos), (12, 34));
    assert_eq!(l.to_string(), "#12:34");
    assert!("12:34".parse::<Link>().is_err());
    assert!("#12".parse::<Link>().is_err());
    assert!("#x:1".parse::<Link>().is_err());
}

#[test]
fn link_decodes_from_link_and_string_kinds() {
    // Typed link (LINK columns, expand() of edges).
    let v = link_v("#3:7");
    assert_eq!(
        Link::from_grpc_value(&v).unwrap(),
        Link::parse("#3:7").unwrap()
    );
    // String-rid projections (`SELECT @out` shapes).
    let v = str_v("#3:7");
    assert_eq!(
        Link::from_grpc_value(&v).unwrap(),
        Link::parse("#3:7").unwrap()
    );
    // Non-rid strings are conversion errors, not garbage.
    assert!(Link::from_grpc_value(&str_v("nope")).is_err());
}

#[test]
fn edge_row_decodes_rid_in_and_out() {
    let rec = GrpcRecord {
        rid: "#44:0".to_string(),
        class: "DEVELOPED".to_string(),
        properties: props(vec![("@in", link_v("#11:2")), ("@out", str_v("#12:9"))]),
    };
    let rid: Option<Link> = get_synth_opt(&rec.properties, "@rid", rid_of(&rec)).unwrap();
    assert_eq!(rid, Some(Link::parse("#44:0").unwrap())); // synth from record metadata
    assert_eq!(rec.get::<Link>("@in").unwrap(), Link::parse("#11:2").unwrap());
    assert_eq!(rec.get::<Link>("@out").unwrap(), Link::parse("#12:9").unwrap());
}

#[test]
fn synthetic_properties_fall_back_in_order() {
    let rec = GrpcRecord {
        rid: String::new(),
        class: "item".to_string(),
        properties: props(vec![]),
    };
    // An empty record id is none.
    assert_eq!(rid_of(&rec), None);
    let class: String = get_synth(&rec.properties, "@type", class_of(&rec)).unwrap();
    assert_eq!(class, "item");
    assert_eq!(
        get_synth::<String>(&rec.properties, "@rid", rid_of(&rec)).unwrap_err(),
        RecordDecodeError::missing_field("@rid")
    );
    let fallback = get_synth_or(&rec.properties, "@rid", None, || "none".to_string()).unwrap();
    assert_eq!(fallback, "none");
    let stored = props(vec![("@rid", gv_null())]);
    assert_eq!(get_synth_opt::<String>(&stored, "@rid", Some(&rec.class)).unwrap(), None);
    // What is stored must convert.
    let stored = props(vec![("@rid", str_v("nope"))]);
    assert!(get_synth::<Link>(&stored, "@rid", None).is_err());
}

#[test]
fn link_lists_decode_element_wise() {
    // A list mixing typed links and rid-shaped strings (LINKLIST columns).
    let rec = record(vec![("related", list(vec![link_v("#1:0"), str_v("#2:5")]))]);
    assert_eq!(
        rec.get::<Vec<Link>>("related").unwrap(),
        vec![Link::parse("#1:0").unwrap(), Link::parse("#2:5").unwrap()]
    );
}

// ---------------------------------------------------------------------------
// Typed property access on the record
// ---------------------------------------------------------------------------

#[test]
fn record_get_decodes_required_property() {
    let rec = article_record();
    let title: &str = rec.get("title").unwrap();
    assert_eq!(title, "Intro to Rust");
    let seq: i32 = rec.get("sequence").unwrap();
    assert_eq!(seq, 1);
}

#[test]
fn record_get_errors_name_the_field_and_kinds() {
    let mut rec = article_record();
    rec.properties.remove("title");
    let err = rec.get::<String>("title").unwrap_err();
    assert!(err.to_string().contains("title"), "{err:?}");

    rec.properties.insert("sequence".to_string(), str_v("one"));
    let err = rec.get::<i32>("sequence").unwrap_err();
    assert!(err.to_string().contains("sequence"), "{err:?}");
}

#[test]
fn record_get_opt_and_get_or_handle_absence() {
    let rec = article_record();

    let missing: Option<&str> = rec.get_opt("no_such_column").unwrap();
    assert_eq!(missing, None);

    let priority: &str = rec.get("priority").unwrap();
    assert_eq!(priority, "low");
    // Absent → default.
    let boost: i64 = rec.get_or("boost", 7).unwrap();
    assert_eq!(boost, 7);
}

#[test]
fn query_result_rows_decode_lazily_and_borrow() {
    let res = QueryResult {
        records: vec![article_record(), article_record()],
        execution_time_ms: 3,
    };

    let mut titles = Vec::new();
    for row in res.rows::<ArticleRow>() {
        let row = row.unwrap();
        titles.push(row.article.title.clone());
        assert_eq!(row.score, 0.0); // defaulted sibling
    }
    assert_eq!(titles, vec!["Intro to Rust"; 2]);

    // A bad row surfaces as an Err item mid-iteration.
    let mut bad = article_record();
    bad.properties.insert("score".to_string(), str_v("high"));
    let res = QueryResult {
        records: vec![article_record(), bad],
        execution_time_ms: 1,
    };
    let results = res.rows::<ArticleRow>();
    assert!(results[0].is_ok());
    assert!(results[1].is_err());
}

// ---------------------------------------------------------------------------
// Sets, ordered maps, dates
// ---------------------------------------------------------------------------

#[test]
fn sets_and_btreemap_decode_from_list_and_map_values() {
    let rec = GrpcRecord {
        rid: String::new(),
        class: "t".to_string(),
        properties: props(vec![
            ("tags", list(vec![str_v("a"), str_v("b"), str_v("a")])),
            ("ids", list(vec![i32_v(3), i32_v(1), i32_v(2)])),
            ("meta", map_v(vec![("k2", i64_v(20)), ("k1", i64_v(10))])),
        ]),
    };

    let at = |name: &str| rec.properties.get(name).unwrap();
    let tags: HashSet<String> = set_elements(at("tags")).unwrap().into_iter().collect();
    let ids: BTreeSet<i32> = set_elements(at("ids")).unwrap().into_iter().collect();
    let meta: BTreeMap<String, i64> =
        rec.get::<PropMap<i64>>("meta").unwrap().into_entries().into_iter().collect();
    // HashSet dedups; BTreeSet/BTreeMap iterate deterministically.
    assert_eq!(tags.len(), 2);
    let ids: Vec<_> = ids.into_iter().collect();
    assert_eq!(ids, vec![1, 2, 3]);
    let keys: Vec<_> = meta.keys().cloned().collect();
    assert_eq!(keys, vec!["k1", "k2"]);
    assert_eq!(
        set_elements::<i32>(at("tags")).unwrap_err().to_string(),
        "property `set[0]`: expected i32, got string"
    );
}

#[test]
fn naive_date_decodes_midnight_utc_timestamp() {
    // DATE columns arrive as midnight-UTC TimestampValue.
    let ts = Timestamp {
        seconds: 1_751_241_600, // 2025-06-30T00:00:00Z
        nanos: 0,
    };
    let d = CalendarDate::from_grpc_value(&gv(Kind::TimestampValue(ts))).unwrap();
    assert_eq!(d, CalendarDate::from_ymd_opt(2025, 6, 30).unwrap());

    // Non-timestamp kinds are loud type mismatches.
    let err = CalendarDate::from_grpc_value(&str_v("2025-06-30")).unwrap_err();
    assert!(err.to_string().contains("date"), "{err:?}");
}

#[test]
fn calendar_dates_and_times_agree_with_the_calendar() {
    let d = CalendarDate::from_ymd_opt(2024, 2, 29).unwrap();
    assert_eq!((d.year(), d.month(), d.day()), (2024, 2, 29));
    assert_eq!(d.midnight_utc(), 1_709_164_800);
    assert!(CalendarDate::from_ymd_opt(2023, 2, 29).is_none());
    let t = DateTimeUtc::from_timestamp(1_709_164_800 + 86_399, 5).unwrap();
    assert_eq!(t.date(), d);
    assert_eq!(t.to_rfc3339(), "2024-02-29T23:59:59.000000005+00:00");
    assert!(DateTimeUtc::from_timestamp(i64::MAX, 0).is_none());
    assert!(DateTimeUtc::parse_from_rfc3339("2024-02-30T00:00:00Z").is_none());
}

#[test]
fn optional_properties_can_have_a_default_of_their_own() {
    let rec = record(vec![
        ("name", gv(Kind::StringValue("oak".to_string()))),
        ("null", gv_null()),
        ("raw", gv(Kind::BytesValue(vec![1, 2]))),
        ("n", gv(Kind::Int64Value(7))),
    ]);
    let p = &rec.properties;
    let other = || Some("other".to_string());
    let name = |k: &str| get_opt_or::<String, _>(p, &[], k, other).unwrap();
    assert_eq!(name("name").as_deref(), Some("oak"));
    assert_eq!(name("null"), None);
    assert_eq!(name("absent").as_deref(), Some("other"));
    assert_eq!(get_opt_or::<String, _>(p, &["name"], "name", other).unwrap(), other());
    assert!(get_opt_or::<String, _>(p, &[], "n", other).is_err());

    let bytes = |k: &str| get_opt_bytes_or(p, &[], k, || Some(vec![9])).unwrap();
    assert_eq!(bytes("raw"), Some(vec![1, 2]));
    assert_eq!(bytes("null"), None);
    assert_eq!(bytes("absent"), Some(vec![9]));

    let double = |v: &GrpcValue| i64::from_grpc_value(v).map(|n| 2 * n);
    let twice = |k: &str| get_opt_with_or(p, &[], k, double, || Some(0)).unwrap();
    assert_eq!(twice("n"), Some(14));
    assert_eq!(twice("null"), None);
    assert_eq!(twice("absent"), Some(0));

    let rid = "#1:2".to_string();
    let synth = |k: &str, m: Option<&String>| get_synth_opt_or(p, k, m, other).unwrap();
    assert_eq!(synth("name", Some(&rid)).as_deref(), Some("oak"));
    assert_eq!(synth("absent", Some(&rid)).as_deref(), Some("#1:2"));
    assert_eq!(synth("absent", None).as_deref(), Some("other"));
    assert_eq!(synth("null", None), None);
}
