use chrono::Datelike;
use data_exchange::binary::{read_bool, read_i32, read_i64};
use data_exchange::data_type::DataTypeImpl;
use data_exchange::data_type::TypeID;
use data_exchange::date::uniform as date_uniform;
use data_exchange::date::DateDeserializer;
use data_exchange::date::EPOCH_DAYS_FROM_CE;
use data_exchange::date_time::uniform as time_uniform;
use data_exchange::error::ErrorCode;
use data_exchange::error::ErrorKind;
use data_exchange::load::{format_of, select_format, stream_step, success_response, uses_new_processor};
use data_exchange::load::{InsertInputSource, LoadFormat, LoadPlan, ProgressValues};
use data_exchange::nullable::is_null_text;
use data_exchange::nullable::NullableDeserializer;
use data_exchange::nullable::TypeDeserializerImpl;
use data_exchange::pipeline_builder::{ColumnEntry, Metadata, PipelineBuilder, PlanType, SExpr, Stage};
use data_exchange::s3::{ObjectEntry, ObjectMode, S3File};
use data_exchange::timestamp::power_of_ten;
use data_exchange::timestamp::TimestampType;
use data_exchange::timestamp::UtcInstant;
use data_exchange::variant::VariantDeserializer;
use data_exchange::variant::VariantObjectType;

#[test]
fn timestamp_keeps_precision_and_zone() {
    let t = TimestampType::create(3, Some("Asia/Shanghai".to_string()));
    assert_eq!(t.precision(), 3);
    assert_eq!(t.tz(), Some(&"Asia/Shanghai".to_string()));
    assert_eq!(t.zone_name(), "Asia/Shanghai");
    let t = TimestampType::create(6, None);
    assert_eq!(t.precision(), 6);
    assert_eq!(t.tz(), None);
    assert_eq!(t.zone_name(), "UTC");
    assert_eq!(t.data_type_id(), TypeID::Timestamp);
    assert_eq!(t.default_value(), 0);
}

#[test]
fn timestamp_arc_is_a_timestamp_type() {
    let t = TimestampType::arc(3, None);
    assert_eq!(*t, DataTypeImpl::Timestamp(TimestampType::create(3, None)));
    assert_eq!(t.data_type_id(), TypeID::Timestamp);
    let v = VariantObjectType::arc();
    assert_eq!(*v, DataTypeImpl::VariantObject(VariantObjectType {}));
    assert_eq!(v.data_type_id(), TypeID::VariantObject);
}

#[test]
fn ticks_become_seconds() {
    assert_eq!(TimestampType::create(3, None).to_seconds(1630320462123), 1630320462);
    assert_eq!(TimestampType::create(0, None).to_seconds(1630320462), 1630320462);
    assert_eq!(TimestampType::create(9, None).to_seconds(1_999_999_999), 1);
    assert_eq!(TimestampType::create(9, None).to_seconds(-1_500_000_000), -1);
    assert_eq!(TimestampType::create(6, None).to_seconds(-1), 0);
}

#[test]
fn nanoseconds_become_ticks() {
    assert_eq!(TimestampType::create(3, None).from_nano_seconds(1_630_320_462_123_456_789), 1_630_320_462_123);
    assert_eq!(TimestampType::create(0, None).from_nano_seconds(1_630_320_462_123_456_789), 1_630_320_462);
    assert_eq!(TimestampType::create(9, None).from_nano_seconds(17), 17);
    assert_eq!(TimestampType::create(6, None).from_nano_seconds(-1_500), -1);
}

#[test]
fn ticks_become_an_instant() {
    assert_eq!(
        TimestampType::create(3, None).utc_timestamp(1630320462123),
        UtcInstant { secs: 1630320462, nsecs: 123_000_000 }
    );
    assert_eq!(TimestampType::create(0, None).utc_timestamp(-5), UtcInstant { secs: -5, nsecs: 0 });
}

#[test]
fn powers_of_ten() {
    assert_eq!(power_of_ten(0), 1);
    assert_eq!(power_of_ten(6), 1_000_000);
    assert_eq!(power_of_ten(9), 1_000_000_000);
}

#[test]
fn format_string_carries_the_precision() {
    assert_eq!(TimestampType::create(0, None).format_string(), "%Y-%m-%d %H:%M:%S");
    assert_eq!(TimestampType::create(3, None).format_string(), "%Y-%m-%d %H:%M:%S%.3f");
    assert_eq!(TimestampType::create(9, None).format_string(), "%Y-%m-%d %H:%M:%S%.9f");
    assert_eq!(TimestampType::create(12, None).format_string(), "%Y-%m-%d %H:%M:%S%.12f");
}

#[test]
fn timestamp_names() {
    assert_eq!(TimestampType::create(6, None).name(), "Timestamp(6)");
    assert_eq!(TimestampType::create(0, None).aliases(), vec!["DateTime(0)".to_string()]);
    assert_eq!(TimestampType::create(6, None).aliases(), vec!["Timestamp".to_string(), "DateTime".to_string()]);
    assert_eq!(TimestampType::create(9, None).aliases(), vec!["DateTime(9)".to_string()]);
    assert!(TimestampType::create(10, None).aliases().is_empty());
    let meta = TimestampType::create(6, None).custom_arrow_meta();
    assert_eq!(meta.name, "Timestamp");
    assert_eq!(meta.meta, Some("6UTC".to_string()));
    let meta = TimestampType::create(3, Some("Asia/Shanghai".to_string())).custom_arrow_meta();
    assert_eq!(meta.meta, Some("3Asia/Shanghai".to_string()));
    assert_eq!(VariantObjectType {}.name(), "Object");
    assert_eq!(VariantObjectType {}.custom_arrow_meta().name, "VariantObject");
    assert_eq!(VariantObjectType {}.custom_arrow_meta().meta, None);
}

#[test]
fn deserializer_needs_a_known_zone() {
    let reader = TimestampType::create(3, None).create_deserializer(8).unwrap();
    assert_eq!(reader.precision, 3);
    assert_eq!(reader.tz, chrono_tz::Tz::UTC);
    assert!(reader.builder.is_empty());
    let reader = TimestampType::create(6, Some("Asia/Shanghai".to_string())).create_deserializer(8).unwrap();
    assert_eq!(reader.tz, chrono_tz::Tz::Asia__Shanghai);
    assert!(TimestampType::create(6, Some("Mars/Olympus".to_string())).create_deserializer(8).is_none());
}

#[test]
fn dates_are_days_since_the_epoch() {
    assert_eq!(EPOCH_DAYS_FROM_CE, 719_163);
    assert_eq!(date_uniform(1970, 1, 1), Some(0));
    assert_eq!(date_uniform(1970, 1, 2), Some(1));
    assert_eq!(date_uniform(1969, 12, 31), Some(-1));
    assert_eq!(date_uniform(2021, 8, 30), Some(18869));
    assert_eq!(date_uniform(2000, 2, 29), Some(11016));
    assert_eq!(date_uniform(1, 1, 1), Some(1 - 719_163));
    assert_eq!(date_uniform(0, 1, 1), Some(-365 - 719_163));
    assert_eq!(date_uniform(-400, 3, 1), Some(-865_565));
    assert_eq!(date_uniform(1900, 2, 29), None);
    assert_eq!(date_uniform(2021, 13, 1), None);
    assert_eq!(date_uniform(2021, 4, 31), None);
    assert_eq!(date_uniform(2021, 0, 1), None);
    assert_eq!(date_uniform(2021, 1, 0), None);
    assert!(date_uniform(262_142, 12, 31).is_some());
    assert_eq!(date_uniform(262_143, 1, 1), None);
    assert!(date_uniform(-262_143, 1, 1).is_some());
    assert_eq!(date_uniform(-262_144, 12, 31), None);
}

#[test]
fn day_numbers_agree_with_the_calendar() {
    for (y, m, d) in [(1970, 1, 1), (2024, 2, 29), (1600, 12, 31), (-1, 6, 15), (-262_143, 1, 1), (262_142, 12, 31), (100, 3, 1)] {
        let date = chrono::NaiveDate::from_ymd_opt(y, m, d).unwrap();
        assert_eq!(date_uniform(y, m, d), Some(date.num_days_from_ce() - 719_163));
    }
}

#[test]
fn nanoseconds_are_brought_to_the_precision() {
    let nanos = 1_630_320_462_123_456_789;
    assert_eq!(time_uniform(nanos, 0), 1_630_320_462);
    assert_eq!(time_uniform(nanos, 3), 1_630_320_462_123);
    assert_eq!(time_uniform(nanos, 6), 1_630_320_462_123_456);
    assert_eq!(time_uniform(nanos, 9), nanos);
    assert_eq!(time_uniform(nanos, 4), nanos);
    assert_eq!(time_uniform(-1_500_000_000, 0), -1);
    assert_eq!(time_uniform(-1, 6), 0);
}

#[test]
fn little_endian_numbers() {
    assert_eq!(read_i32(&[0xB5, 0x49, 0, 0], 0).unwrap(), 18869);
    assert_eq!(read_i32(&[9, 0xB5, 0x49, 0, 0], 1).unwrap(), 18869);
    assert_eq!(read_i32(&[0xff, 0xff, 0xff, 0xff], 0).unwrap(), -1);
    assert_eq!(read_i32(&[0, 0, 0, 0x80], 0).unwrap(), i32::MIN);
    assert_eq!(read_i32(&[0xff, 0xff, 0xff, 0x7f], 0).unwrap(), i32::MAX);
    assert_eq!(read_i32(&[1, 2, 3], 0).unwrap_err().kind, ErrorKind::BadBytes);
    assert_eq!(read_i32(&[1, 2, 3, 4], 1).unwrap_err().kind, ErrorKind::BadBytes);
    assert_eq!(read_i32(&[1, 2, 3, 4], usize::MAX).unwrap_err().kind, ErrorKind::BadBytes);
    assert_eq!(read_i64(&1630320462i64.to_le_bytes(), 0).unwrap(), 1630320462);
    assert_eq!(read_i64(&(-2i64).to_le_bytes(), 0).unwrap(), -2);
    assert_eq!(read_i64(&i64::MIN.to_le_bytes(), 0).unwrap(), i64::MIN);
    assert_eq!(read_i64(&i64::MAX.to_le_bytes(), 0).unwrap(), i64::MAX);
    assert_eq!(read_i64(&[0; 7], 0).unwrap_err().kind, ErrorKind::BadBytes);
    assert_eq!(read_bool(&[0, 2], 0).unwrap(), false);
    assert_eq!(read_bool(&[0, 2], 1).unwrap(), true);
    assert_eq!(read_bool(&[0, 2], 2).unwrap_err().kind, ErrorKind::BadBytes);
}

#[test]
fn date_column_is_read_row_by_row() {
    let mut reader = DateDeserializer::with_capacity(4);
    assert_eq!(reader.de_binary(&[0xB5, 0x49, 0, 0, 1, 0, 0, 0], 0).unwrap(), 4);
    assert_eq!(reader.de_binary(&[0xB5, 0x49, 0, 0, 1, 0, 0, 0], 4).unwrap(), 8);
    assert_eq!(reader.de_binary(&[0xB5, 0x49, 0, 0, 1, 0, 0, 0], 8).unwrap_err().kind, ErrorKind::BadBytes);
    reader.de_default();
    reader.append_date(2021, 8, 30).unwrap();
    assert_eq!(reader.append_date(2021, 2, 30).unwrap_err().kind, ErrorKind::BadBytes);
    reader.append_data_value(18869);
    reader.append_data_value((1i64 << 32) + 5);
    assert_eq!(reader.builder, vec![18869, 1, 0, 18869, 18869, 5]);
    assert_eq!(reader.finish_to_column(), vec![18869, 1, 0, 18869, 18869, 5]);
    assert!(reader.builder.is_empty());
}

#[test]
fn date_batch_stops_at_the_first_short_row() {
    let bytes = [1u8, 0, 0, 0, 9, 9, 2, 0, 0, 0, 9, 9, 3, 0, 0, 0];
    let mut reader = DateDeserializer::with_capacity(4);
    reader.de_fixed_binary_batch(&bytes, 6, 3).unwrap();
    assert_eq!(reader.builder, vec![1, 2, 3]);
    let mut reader = DateDeserializer::with_capacity(4);
    assert_eq!(reader.de_fixed_binary_batch(&bytes, 6, 4).unwrap_err().kind, ErrorKind::BadBytes);
    assert_eq!(reader.builder, vec![1, 2, 3]);
    let mut reader = DateDeserializer::with_capacity(4);
    assert!(reader.de_fixed_binary_batch(&bytes, usize::MAX, 1).is_ok());
    assert_eq!(reader.de_fixed_binary_batch(&bytes, usize::MAX, 3).unwrap_err().kind, ErrorKind::BadBytes);
    assert_eq!(reader.builder, vec![1, 1]);
}

#[test]
fn timestamp_column_is_read_row_by_row() {
    let mut reader = TimestampType::create(3, None).create_deserializer(2).unwrap();
    let mut bytes = 1630320462i64.to_le_bytes().to_vec();
    bytes.extend_from_slice(&(-7i64).to_le_bytes());
    assert_eq!(reader.de_binary(&bytes, 0).unwrap(), 8);
    reader.de_default();
    reader.append_nanos(1_630_320_462_123_456_789);
    reader.append_data_value(42);
    reader.de_fixed_binary_batch(&bytes, 8, 2).unwrap();
    assert_eq!(reader.de_fixed_binary_batch(&bytes, 8, 3).unwrap_err().kind, ErrorKind::BadBytes);
    let expected = vec![1630320462, 0, 1_630_320_462_123, 42, 1630320462, -7, 1630320462, -7];
    assert_eq!(reader.builder, expected);
    assert_eq!(reader.finish_to_column(), expected);
    assert!(reader.builder.is_empty());
}

#[test]
fn object_column_reads_documents() {
    let mut reader = VariantDeserializer::with_capacity(2);
    reader.de_whole_text(b"{\"a\": [1, 2, null]}").unwrap();
    reader.de_default();
    let doc: serde_json::Value = serde_json::from_str("{\"k\": \"v\"}").unwrap();
    reader.de_json(&doc);
    assert_eq!(reader.de_whole_text(b"{\"a\": ").unwrap_err().kind, ErrorKind::BadBytes);
    assert_eq!(reader.de_whole_text(b"").unwrap_err().kind, ErrorKind::BadBytes);
    let first: serde_json::Value = serde_json::from_str("{\"a\": [1, 2, null]}").unwrap();
    assert_eq!(reader.builder, vec![first.clone(), serde_json::Value::Null, doc.clone()]);
    assert_eq!(reader.finish_to_column(), vec![first, serde_json::Value::Null, doc]);
    assert!(reader.builder.is_empty());
}

#[test]
fn nullable_column_records_which_rows_are_there() {
    let mut reader = NullableDeserializer {
        inner: Box::new(TypeDeserializerImpl::Date(DateDeserializer::with_capacity(2))),
        bitmap: vec![],
    };
    assert_eq!(reader.de_binary(&[1, 0xB5, 0x49, 0, 0, 0], 0).unwrap(), 5);
    assert_eq!(reader.de_binary(&[1, 0xB5, 0x49, 0, 0, 0], 5).unwrap(), 6);
    assert!(reader.de_binary(&[1, 0xB5, 0x49, 0, 0, 0], 6).is_err());
    assert!(reader.de_binary(&[1, 0xB5], 0).is_err());
    reader.de_default();
    assert!(reader.de_null());
    reader.append_data_value(Some(7));
    reader.append_data_value(None);
    assert_eq!(reader.bitmap, vec![true, false, false, false, true, false]);
    match reader.inner.as_ref() {
        TypeDeserializerImpl::Date(inner) => assert_eq!(inner.builder, vec![18869, 0, 0, 0, 7, 0]),
        other => panic!("{:?}", other),
    }
    assert_eq!(reader.finish_to_column(), vec![true, false, false, false, true, false]);
    assert!(reader.bitmap.is_empty());
}

#[test]
fn null_text_in_either_case() {
    assert!(is_null_text(b"null"));
    assert!(is_null_text(b"NULL"));
    assert!(is_null_text(b"nUlL"));
    assert!(!is_null_text(b"nul"));
    assert!(!is_null_text(b"nulls"));
    assert!(!is_null_text(b"nurl"));
    assert!(!is_null_text(b""));
}

#[test]
fn listing_keeps_the_files() {
    let entries = vec![
        ObjectEntry { mode: ObjectMode::FILE, path: "d/a.csv".to_string() },
        ObjectEntry { mode: ObjectMode::DIR, path: "d/sub/".to_string() },
        ObjectEntry { mode: ObjectMode::Unknown, path: "d/x".to_string() },
        ObjectEntry { mode: ObjectMode::FILE, path: "d/b.csv".to_string() },
    ];
    assert_eq!(S3File::list(ObjectMode::FILE, "d/a.csv", &entries).unwrap(), vec!["d/a.csv".to_string()]);
    assert_eq!(
        S3File::list(ObjectMode::DIR, "d/", &entries).unwrap(),
        vec!["d/a.csv".to_string(), "d/b.csv".to_string()]
    );
    assert!(S3File::list(ObjectMode::DIR, "d/", &vec![]).unwrap().is_empty());
    let failure = S3File::list(ObjectMode::Unknown, "d/", &entries).unwrap_err();
    assert_eq!(failure.kind, ErrorKind::StorageOther);
    assert_eq!(failure.message, "S3 list() can not handle the object mode: Unknown");
}

fn scan() -> SExpr {
    SExpr { plan: PlanType::PhysicalScan { table_index: 2, columns: vec![0, 1, 3] }, child: None }
}

fn metadata() -> Metadata {
    Metadata { columns: vec![ColumnEntry { name: "number".to_string(), nullable: false }] }
}

#[test]
fn plan_is_built_into_stages() {
    let plan = SExpr { plan: PlanType::Project { items: vec![1] }, child: Some(Box::new(scan())) };
    let builder = PipelineBuilder::new(vec![(1, "n".to_string())], metadata(), plan);
    assert!(builder.pipeline.is_empty());
    assert_eq!(builder.result_columns, vec![(1, "n".to_string())]);
    let stages = builder.spawn().unwrap();
    assert_eq!(
        stages,
        vec![
            Stage::Source { table_index: 2 },
            Stage::Projection { columns: vec![0, 1, 3] },
            Stage::Projection { columns: vec![1] },
            Stage::Projection { columns: vec![1] },
        ]
    );
}

#[test]
fn plan_that_cannot_run_is_refused() {
    for plan in [
        SExpr { plan: PlanType::Logical, child: None },
        SExpr { plan: PlanType::Project { items: vec![] }, child: None },
        SExpr { plan: PlanType::PhysicalScan { table_index: 0, columns: vec![] }, child: Some(Box::new(scan())) },
        SExpr {
            plan: PlanType::Project { items: vec![] },
            child: Some(Box::new(SExpr { plan: PlanType::Logical, child: None })),
        },
    ] {
        let failure = PipelineBuilder::new(vec![], metadata(), plan).spawn().unwrap_err();
        assert_eq!(failure.kind, ErrorKind::LogicalError);
        assert_eq!(failure.message, "Invalid physical plan");
    }
    let mut stages = vec![];
    assert!(PipelineBuilder::build_pipeline(&mut stages, &scan()).is_ok());
    assert_eq!(stages.len(), 2);
    assert_eq!(PipelineBuilder::align_data_schema(&vec![(4, "a".to_string()), (2, "b".to_string())]), vec![4, 2]);
}

#[test]
fn upload_format_is_chosen_whatever_its_case() {
    let streaming = |name: &str| LoadPlan::Insert(InsertInputSource::StreamingWithFormat(name.to_string()));
    assert_eq!(select_format(&streaming("csv")), Ok(LoadFormat::Csv));
    assert_eq!(select_format(&streaming("CSV")), Ok(LoadFormat::Csv));
    assert_eq!(select_format(&streaming("Parquet")), Ok(LoadFormat::Parquet));
    assert_eq!(select_format(&streaming("NDJSON")), Ok(LoadFormat::NdJson));
    assert_eq!(select_format(&streaming("JsonEachRow")), Ok(LoadFormat::NdJson));
    let failure = select_format(&streaming("TSV")).unwrap_err();
    assert_eq!(failure.kind, ErrorKind::BadRequest);
    assert_eq!(failure.message, "Streaming load only supports csv format, but got TSV");
    let failure = select_format(&LoadPlan::Insert(InsertInputSource::Inline)).unwrap_err();
    assert_eq!(failure.message, "Only supports streaming upload. e.g. INSERT INTO $table FORMAT CSV");
    let failure = select_format(&LoadPlan::Other("Select".to_string())).unwrap_err();
    assert_eq!(failure.message, "Only supports INSERT statement in streaming load, but got Select");
    assert_eq!(format_of("CSV"), None);
    assert_eq!(format_of("csv"), Some(LoadFormat::Csv));
}

#[test]
fn upload_stream_yields_until_the_source_is_drained() {
    assert_eq!(stream_step::<u8>(Ok(None)), None);
    assert_eq!(stream_step(Ok(Some(7u8))), Some(Ok(7u8)));
    let failure = ErrorCode::new(ErrorKind::BadBytes, "Read part to field bytes error");
    assert_eq!(stream_step::<u8>(Err(failure.clone())), Some(Err(failure)));
    assert!(uses_new_processor(1, true));
    assert!(!uses_new_processor(0, true));
    assert!(!uses_new_processor(1, false));
    let response = success_response("id-1".to_string(), ProgressValues { rows: 3, bytes: 40 });
    assert_eq!(response.state, "SUCCESS");
    assert_eq!(response.id, "id-1");
    assert_eq!(response.error, None);
    assert_eq!(response.stats, ProgressValues { rows: 3, bytes: 40 });
}

#[test]
fn object_batch_reads_each_row_to_the_end() {
    let mut reader = VariantDeserializer::with_capacity(2);
    reader.de_fixed_binary_batch(b"  17", 2, 2).unwrap();
    assert_eq!(reader.builder, vec![serde_json::Value::from(17), serde_json::Value::from(17)]);
    let mut reader = VariantDeserializer::with_capacity(2);
    assert_eq!(reader.de_fixed_binary_batch(b"[1] ", 2, 2).unwrap_err().kind, ErrorKind::BadBytes);
    assert_eq!(reader.builder.len(), 1);
    assert_eq!(reader.de_fixed_binary_batch(b"17", 3, 2).unwrap_err().kind, ErrorKind::BadBytes);
    assert_eq!(reader.builder.len(), 2);
}
