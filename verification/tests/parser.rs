use a4keyboard::Error;
use a4keyboard::Parser;
use a4keyboard::Report;
use a4keyboard::ReportType;
use a4keyboard::parse;

const REPORT_DESCRIPTOR1: &[u8] = &[
    0x05, 0x01, 0x09, 0x06, 0xa1, 0x01, 0x85, 0x01, 0x05, 0x07, 0x19, 0xe0, 0x29, 0xe7, 0x15,
    0x00, 0x25, 0x01, 0x75, 0x01, 0x95, 0x08, 0x81, 0x02, 0x05, 0x07, 0x19, 0x00, 0x29, 0x97,
    0x15, 0x00, 0x25, 0x01, 0x75, 0x01, 0x96, 0x98, 0x00, 0x81, 0x02, 0xc0, 0x05, 0x01, 0x09,
    0x80, 0xa1, 0x01, 0x85, 0x02, 0x19, 0x00, 0x29, 0xb7, 0x15, 0x00, 0x26, 0xb7, 0x00, 0x95,
    0x01, 0x75, 0x08, 0x81, 0x00, 0xc0, 0x05, 0x0c, 0x09, 0x01, 0xa1, 0x01, 0x85, 0x03, 0x1a,
    0x00, 0x00, 0x2a, 0x3c, 0x02, 0x15, 0x00, 0x26, 0x3c, 0x02, 0x75, 0x10, 0x95, 0x01, 0x81,
    0x00, 0xc0, 0x06, 0x52, 0xff, 0x0a, 0x10, 0x02, 0xa1, 0x01, 0x85, 0x07, 0x19, 0x01, 0x29,
    0x3f, 0x15, 0x00, 0x26, 0xff, 0x00, 0x75, 0x08, 0x95, 0x3f, 0x81, 0x00, 0x19, 0x01, 0x29,
    0x3f, 0x15, 0x00, 0x26, 0xff, 0x00, 0x75, 0x08, 0x95, 0x3f, 0xb1, 0x02, 0xc0,
];

#[test]
fn test1() {
    let descriptor = Parser::default().parse(REPORT_DESCRIPTOR1).unwrap();

    assert_eq!(descriptor.main_collection.reports.len(), 0);
    assert_eq!(descriptor.main_collection.nested.len(), 4);

    let nested = descriptor.main_collection.nested;

    assert_eq!(nested[0].nested.len(), 0);
    assert_eq!(nested[0].reports.len(), 2);

    assert_eq!(
        nested[0].reports[0],
        Report {
            r_type: ReportType::Input,
            usage_page: 0x07,
            usage: 0x06,
            usage_minimum: Some(0xE0),
            usage_maximum: Some(0xE7),
            report_size: 1,
            report_id: 1,
            report_count: 8,
            logical_minimum: 0,
            logical_maximum: 1,
            physical_minimum: None,
            physical_maximum: None,
        }
    );
    assert_eq!(
        nested[0].reports[1],
        Report {
            r_type: ReportType::Input,
            usage_page: 0x07,
            usage: 0x06,
            usage_minimum: Some(0x00),
            usage_maximum: Some(0x97),
            report_size: 1,
            report_id: 1,
            report_count: 152,
            logical_minimum: 0,
            logical_maximum: 1,
            physical_minimum: None,
            physical_maximum: None,
        }
    );

    assert_eq!(nested[1].nested.len(), 0);
    assert_eq!(nested[1].reports.len(), 1);

    assert_eq!(
        nested[1].reports[0],
        Report {
            r_type: ReportType::Input,
            usage_page: 0x01,
            usage: 0x80,
            usage_minimum: Some(0x00),
            usage_maximum: Some(0xB7),
            report_size: 8,
            report_id: 2,
            report_count: 1,
            logical_minimum: 0,
            logical_maximum: 183,
            physical_minimum: None,
            physical_maximum: None,
        }
    );

    assert_eq!(nested[2].nested.len(), 0);
    assert_eq!(nested[2].reports.len(), 1);

    assert_eq!(
        nested[2].reports[0],
        Report {
            r_type: ReportType::Input,
            usage_page: 0x0C,
            usage: 0x01,
            usage_minimum: Some(0x00),
            usage_maximum: Some(0x023C),
            report_size: 16,
            report_id: 3,
            report_count: 1,
            logical_minimum: 0x00,
            logical_maximum: 0x023C,
            physical_minimum: None,
            physical_maximum: None,
        }
    );

    assert_eq!(nested[3].nested.len(), 0);
    assert_eq!(nested[3].reports.len(), 2);

    assert_eq!(
        nested[3].reports[0],
        Report {
            r_type: ReportType::Input,
            usage_page: 0xFF52,
            usage: 0x0210,
            usage_minimum: Some(0x01),
            usage_maximum: Some(0x3F),
            report_size: 8,
            report_id: 7,
            report_count: 63,
            logical_minimum: 0x00,
            logical_maximum: 0xFF,
            physical_minimum: None,
            physical_maximum: None,
        }
    );
    assert_eq!(
        nested[3].reports[1],
        Report {
            r_type: ReportType::Feature,
            usage_page: 0xFF52,
            usage: 0x0210,
            usage_minimum: Some(0x01),
            usage_maximum: Some(0x3F),
            report_size: 8,
            report_id: 7,
            report_count: 63,
            logical_minimum: 0x00,
            logical_maximum: 0xFF,
            physical_minimum: None,
            physical_maximum: None,
        }
    );
}

#[test]
fn concrete_scenario() {
    // Usage Page=0x01, Usage=0x06, Collection(Application), Report ID=1,
    // Usage Page=0x07, Usage Min=0xE0, Usage Max=0xE7, Logical Min=0,
    // Logical Max=1, Report Size=1, Report Count=8, Input; End Collection.
    let bytes: &[u8] = &[
        0x05, 0x01, 0x09, 0x06, 0xa1, 0x01, 0x85, 0x01, 0x05, 0x07, 0x19, 0xe0, 0x29, 0xe7,
        0x15, 0x00, 0x25, 0x01, 0x75, 0x01, 0x95, 0x08, 0x81, 0x02, 0xc0,
    ];
    let descriptor = parse(bytes).unwrap();
    assert_eq!(descriptor.main_collection.reports.len(), 0);
    assert_eq!(descriptor.main_collection.nested.len(), 1);
    let inner = &descriptor.main_collection.nested[0];
    assert_eq!(inner.reports.len(), 1);
    assert_eq!(
        inner.reports[0],
        Report {
            r_type: ReportType::Input,
            usage_page: 0x07,
            usage: 0x06,
            usage_minimum: Some(0xE0),
            usage_maximum: Some(0xE7),
            report_size: 1,
            report_id: 1,
            report_count: 8,
            logical_minimum: 0,
            logical_maximum: 1,
            physical_minimum: None,
            physical_maximum: None,
        }
    );
}

#[test]
fn unclosed_collection_fails() {
    assert_eq!(parse(&[0xa1, 0x01]).unwrap_err(), Error::MissingEndCollection);
}

#[test]
fn unexpected_end_collection_fails() {
    assert_eq!(parse(&[0xc0]).unwrap_err(), Error::UnexpectedEndCollection);
}

#[test]
fn pop_without_push_fails() {
    assert_eq!(parse(&[0xb4]).unwrap_err(), Error::PopWithoutPush);
}

#[test]
fn push_without_pop_fails() {
    assert_eq!(parse(&[0xa4]).unwrap_err(), Error::MissingPop);
}

#[test]
fn pop_fails_before_later_garbage_is_read() {
    // The dangling pop short-circuits: the truncated item after it is never
    // reached.
    assert_eq!(parse(&[0xb4, 0x06]).unwrap_err(), Error::PopWithoutPush);
}

#[test]
fn required_field_gating_order() {
    assert_eq!(parse(&[0x81, 0x00]).unwrap_err(), Error::UsagePageNotSet);
    assert_eq!(parse(&[0x05, 0x01, 0x81, 0x00]).unwrap_err(), Error::UsageNotSet);
    assert_eq!(
        parse(&[0x05, 0x01, 0x09, 0x06, 0x81, 0x00]).unwrap_err(),
        Error::ReportSizeNotSet
    );
    assert_eq!(
        parse(&[0x05, 0x01, 0x09, 0x06, 0x75, 0x01, 0x81, 0x00]).unwrap_err(),
        Error::ReportCountNotSet
    );
    assert_eq!(
        parse(&[0x05, 0x01, 0x09, 0x06, 0x75, 0x01, 0x95, 0x01, 0x81, 0x00]).unwrap_err(),
        Error::LogicalMinimumNotSet
    );
    assert_eq!(
        parse(&[0x05, 0x01, 0x09, 0x06, 0x75, 0x01, 0x95, 0x01, 0x15, 0x00, 0x81, 0x00])
            .unwrap_err(),
        Error::LogicalMaximumNotSet
    );
}

#[test]
fn report_id_defaults_to_one() {
    // No Report ID tag anywhere: the emitted report carries id 1.
    let bytes: &[u8] = &[
        0x05, 0x01, 0x09, 0x06, 0x15, 0x00, 0x25, 0x01, 0x75, 0x01, 0x95, 0x01, 0x81, 0x00,
    ];
    let descriptor = parse(bytes).unwrap();
    assert_eq!(descriptor.main_collection.reports.len(), 1);
    assert_eq!(descriptor.main_collection.reports[0].report_id, 1);
}

#[test]
fn local_state_persists_between_main_items() {
    // Two Input tags with no Usage tag between them: both reports share the
    // usage.
    let bytes: &[u8] = &[
        0x05, 0x01, 0x09, 0x06, 0x15, 0x00, 0x25, 0x01, 0x75, 0x01, 0x95, 0x01, 0x81, 0x00,
        0x81, 0x00,
    ];
    let descriptor = parse(bytes).unwrap();
    let reports = descriptor.main_collection.reports;
    assert_eq!(reports.len(), 2);
    assert_eq!(reports[0].usage, 0x06);
    assert_eq!(reports[1].usage, 0x06);
    assert_eq!(reports[0], reports[1]);
}

#[test]
fn traversal_direct_reports_first() {
    // The nested collection's report comes first in the byte stream, but the
    // traversal yields the outer collection's direct report first.
    let bytes: &[u8] = &[
        0x05, 0x01, 0x09, 0x06, 0x15, 0x00, 0x25, 0x01, 0x75, 0x01, 0x95, 0x01, // globals
        0xa1, 0x01, // outer collection
        0xa1, 0x00, // inner collection
        0x09, 0x07, // usage 7, local to the inner collection
        0x81, 0x00, // input inside the inner collection
        0xc0, // end inner
        0x81, 0x00, // direct input in the outer collection, usage still 6
        0xc0, // end outer
    ];
    let descriptor = parse(bytes).unwrap();
    let outer = &descriptor.main_collection.nested[0];
    assert_eq!(outer.reports.len(), 1);
    assert_eq!(outer.nested.len(), 1);
    let flat = descriptor.iter();
    assert_eq!(flat.len(), 2);
    assert_eq!(flat[0].usage, 0x06);
    assert_eq!(flat[1].usage, 0x07);
    let outer_flat = outer.iter();
    assert_eq!(outer_flat.len(), 2);
    assert_eq!(outer_flat[0].usage, 0x06);
    assert_eq!(outer_flat[1].usage, 0x07);
}

#[test]
fn parse_is_deterministic() {
    let first = parse(REPORT_DESCRIPTOR1).unwrap();
    let second = parse(REPORT_DESCRIPTOR1).unwrap();
    assert_eq!(first, second);
}

#[test]
fn truncated_short_item_fails() {
    // A header declaring a 2-byte payload with nothing after it.
    assert_eq!(parse(&[0x06]).unwrap_err(), Error::UnexpectedEndOfReportDescriptor);
}

#[test]
fn truncated_long_item_fails() {
    assert_eq!(parse(&[0xfc]).unwrap_err(), Error::UnexpectedEndOfReportDescriptor);
    assert_eq!(parse(&[0xfc, 0x01]).unwrap_err(), Error::UnexpectedEndOfReportDescriptor);
    assert_eq!(
        parse(&[0xfc, 0x02, 0xaa, 0x01]).unwrap_err(),
        Error::UnexpectedEndOfReportDescriptor
    );
}

#[test]
fn long_items_are_skipped() {
    let descriptor = parse(&[0xfe, 0x02, 0xaa, 0x01, 0x02]).unwrap();
    assert_eq!(descriptor.main_collection.reports.len(), 0);
    assert_eq!(descriptor.main_collection.nested.len(), 0);
}

#[test]
fn unknown_short_tags_are_skipped() {
    let descriptor = parse(&[0x0d, 0x55]).unwrap();
    assert_eq!(descriptor.main_collection.reports.len(), 0);
}

#[test]
fn empty_payload_values_are_rejected() {
    assert_eq!(parse(&[0x04]).unwrap_err(), Error::BadUsagePage);
    assert_eq!(parse(&[0x08]).unwrap_err(), Error::BadUsage);
    assert_eq!(parse(&[0x18]).unwrap_err(), Error::BadUsageMinimum);
    assert_eq!(parse(&[0x28]).unwrap_err(), Error::BadUsageMaximum);
    assert_eq!(parse(&[0x74]).unwrap_err(), Error::BadReportSize);
    assert_eq!(parse(&[0x84]).unwrap_err(), Error::BadReportId);
    assert_eq!(parse(&[0x94]).unwrap_err(), Error::BadReportCount);
    assert_eq!(parse(&[0x14]).unwrap_err(), Error::BadLogicalMinimum);
    assert_eq!(parse(&[0x24]).unwrap_err(), Error::BadLogicalMaximum);
    assert_eq!(parse(&[0x34]).unwrap_err(), Error::BadPhysicalMinimum);
    assert_eq!(parse(&[0x44]).unwrap_err(), Error::BadPhysicalMaximum);
    assert_eq!(parse(&[0xa0]).unwrap_err(), Error::BadCollection);
}

#[test]
fn push_and_pop_restore_global_state() {
    let bytes: &[u8] = &[
        0x05, 0x01, // usage page 1
        0x09, 0x06, 0x15, 0x00, 0x25, 0x01, 0x75, 0x01, 0x95, 0x01, // rest of globals
        0xa4, // push
        0x05, 0x02, // usage page 2
        0x81, 0x00, // input with usage page 2
        0xb4, // pop
        0x81, 0x00, // input with usage page 1 again
    ];
    let descriptor = parse(bytes).unwrap();
    let reports = descriptor.main_collection.reports;
    assert_eq!(reports.len(), 2);
    assert_eq!(reports[0].usage_page, 2);
    assert_eq!(reports[1].usage_page, 1);
}

#[test]
fn signed_values_sign_extend() {
    let bytes: &[u8] = &[
        0x05, 0x01, 0x09, 0x06, 0x75, 0x01, 0x95, 0x01, //
        0x15, 0xff, // logical minimum, one byte 0xFF: -1
        0x25, 0x7f, // logical maximum 127
        0x81, 0x00,
    ];
    let descriptor = parse(bytes).unwrap();
    let report = &descriptor.main_collection.reports[0];
    assert_eq!(report.logical_minimum, -1);
    assert_eq!(report.logical_maximum, 127);
}

#[test]
fn four_byte_values_decode() {
    let bytes: &[u8] = &[
        0x05, 0x01, 0x09, 0x06, 0x75, 0x01, 0x95, 0x01, //
        0x17, 0x78, 0x56, 0x34, 0x12, // logical minimum 0x12345678, 4 bytes
        0x25, 0x7f, 0x81, 0x00,
    ];
    let descriptor = parse(bytes).unwrap();
    assert_eq!(descriptor.main_collection.reports[0].logical_minimum, 0x12345678);
}

#[test]
fn physical_bounds_pass_through() {
    let bytes: &[u8] = &[
        0x05, 0x01, 0x09, 0x06, 0x75, 0x01, 0x95, 0x01, 0x15, 0x00, 0x25, 0x01, //
        0x35, 0x0a, // physical minimum 10
        0x45, 0x14, // physical maximum 20
        0x81, 0x00,
    ];
    let descriptor = parse(bytes).unwrap();
    let report = &descriptor.main_collection.reports[0];
    assert_eq!(report.physical_minimum, Some(10));
    assert_eq!(report.physical_maximum, Some(20));
}

#[test]
fn empty_stream_parses_to_empty_descriptor() {
    let descriptor = parse(&[]).unwrap();
    assert_eq!(descriptor.main_collection.reports.len(), 0);
    assert_eq!(descriptor.main_collection.nested.len(), 0);
    assert_eq!(descriptor.iter().len(), 0);
}
