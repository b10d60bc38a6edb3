use genesisdb_io_client::{
    decode_event, default_spec_version, parse_event_lines, parse_value_lines, CloudEvent, Error,
    EventDecoder,
};

fn feed(chunks: &[&[u8]]) -> Vec<Result<CloudEvent, Error>> {
    let mut d = EventDecoder::new();
    let mut out = Vec::new();
    for c in chunks {
        out.extend(d.push_chunk(c));
    }
    out
}

fn ids(items: &[Result<CloudEvent, Error>]) -> Vec<String> {
    items
        .iter()
        .map(|r| match r {
            Ok(e) => e.id.clone(),
            Err(_) => "<error>".to_string(),
        })
        .collect()
}

#[test]
fn one_line_yields_one_event() {
    let items = feed(&[
        b"{\"id\":\"1\",\"source\":\"s\",\"type\":\"t\",\"subject\":\"/x\",\"specversion\":\"1.0\"}\n",
    ]);
    assert_eq!(items.len(), 1);
    let e = items[0].as_ref().unwrap();
    assert_eq!(e.id, "1");
    assert_eq!(e.source, "s");
    assert_eq!(e.event_type, "t");
    assert_eq!(e.subject, "/x");
    assert_eq!(e.specversion, "1.0");
    assert!(e.time.is_none());
    assert!(e.data.is_none());
}

#[test]
fn line_split_across_two_chunks() {
    let items = feed(&[b"{\"id\":\"1\",\"sou", b"rce\":\"s\",\"type\":\"t\",\"subject\":\"/x\"}\n"]);
    assert_eq!(items.len(), 1);
    let e = items[0].as_ref().unwrap();
    assert_eq!(e.id, "1");
    assert_eq!(e.specversion, "1.0");
}

#[test]
fn byte_at_a_time_equals_all_at_once() {
    let body: &[u8] = b"{\"id\":\"a\",\"source\":\"s\",\"type\":\"t\",\"subject\":\"/x\"}\n\n  \r\n{\"payload\":\"\"}\nnot json\ndata: {\"id\":\"b\",\"source\":\"s\",\"type\":\"t\",\"subject\":\"/y\"}\n{\"id\":\"\xc3\xa9\",\"source\":\"s\",\"type\":\"t\",\"subject\":\"/z\"}\n{\"id\":\"tail\"";
    let whole = feed(&[body]);
    let singles: Vec<&[u8]> = body.chunks(1).collect();
    let split = feed(&singles);
    assert_eq!(ids(&whole), vec!["a", "<error>", "b", "\u{e9}"]);
    assert_eq!(ids(&whole), ids(&split));
    let threes: Vec<&[u8]> = body.chunks(3).collect();
    assert_eq!(ids(&whole), ids(&feed(&threes)));
}

#[test]
fn heartbeat_is_dropped() {
    assert!(feed(&[b"{\"payload\":\"\"}\n"]).is_empty());
    assert!(feed(&[b"data: {\"payload\":\"\"}\n"]).is_empty());
    assert!(feed(&[b"  { \"payload\" : \"\" }  \r\n"]).is_empty());
}

#[test]
fn near_heartbeats_are_not_dropped() {
    let items = feed(&[b"{\"payload\":\"x\"}\n{\"payload\":\"\",\"id\":\"1\"}\n{\"other\":\"\"}\n"]);
    assert_eq!(items.len(), 3);
    assert!(items.iter().all(|r| matches!(r, Err(Error::JsonError(_)))));
}

#[test]
fn malformed_line_yields_one_error_and_decoding_goes_on() {
    let items = feed(&[
        b"{\"id\":\"1\",\"source\":\"s\",\"type\":\"t\",\"subject\":\"/x\"}\n{broken\n",
        b"{\"id\":\"2\",\"source\":\"s\",\"type\":\"t\",\"subject\":\"/x\"}\n",
    ]);
    assert_eq!(items.len(), 3);
    assert_eq!(items[0].as_ref().unwrap().id, "1");
    assert!(matches!(items[1], Err(Error::JsonError(_))));
    assert_eq!(items[2].as_ref().unwrap().id, "2");
}

#[test]
fn unterminated_tail_is_never_yielded() {
    let items = feed(&[b"{\"id\":\"1\",\"source\":\"s\",\"type\":\"t\",\"subject\":\"/x\"}"]);
    assert!(items.is_empty());
}

#[test]
fn blank_lines_are_skipped() {
    assert!(feed(&[b"\n\n   \n\t\r\n"]).is_empty());
}

#[test]
fn data_prefix_is_removed() {
    let items = feed(&[b"data: {\"id\":\"7\",\"source\":\"s\",\"type\":\"t\",\"subject\":\"/x\"}\n"]);
    assert_eq!(items.len(), 1);
    assert_eq!(items[0].as_ref().unwrap().id, "7");
}

#[test]
fn invalid_utf8_is_replaced() {
    let items = feed(&[b"{\"id\":\"\xff\",\"source\":\"s\",\"type\":\"t\",\"subject\":\"/x\"}\n"]);
    assert_eq!(items.len(), 1);
    assert_eq!(items[0].as_ref().unwrap().id, "\u{fffd}");
}

#[test]
fn decode_event_reads_every_field() {
    let e = decode_event(
        "{\"id\":\"i\",\"source\":\"s\",\"type\":\"t\",\"subject\":\"/a\\\"b\",\"time\":\"2024-01-01T00:00:00Z\",\"data\":{\"k\":[1,2]},\"specversion\":\"0.3\",\"datacontenttype\":\"application/json\",\"extra\":5}",
    )
    .unwrap();
    assert_eq!(e.id, "i");
    assert_eq!(e.subject, "/a\"b");
    assert_eq!(e.time.as_deref(), Some("2024-01-01T00:00:00Z"));
    assert_eq!(e.data.as_ref().unwrap()["k"][1], 2);
    assert_eq!(e.specversion, "0.3");
    assert_eq!(e.datacontenttype.as_deref(), Some("application/json"));
}

#[test]
fn decode_event_nulls_and_defaults() {
    let e = decode_event(
        "{\"id\":\"i\",\"source\":\"s\",\"type\":\"t\",\"subject\":\"/x\",\"time\":null,\"data\":null,\"datacontenttype\":null}",
    )
    .unwrap();
    assert!(e.time.is_none());
    assert!(e.data.is_none());
    assert!(e.datacontenttype.is_none());
    assert_eq!(e.specversion, "1.0");
    assert_eq!(default_spec_version(), "1.0");
}

#[test]
fn decode_event_rejects_missing_or_mistyped_members() {
    assert!(matches!(
        decode_event("{\"source\":\"s\",\"type\":\"t\",\"subject\":\"/x\"}"),
        Err(Error::JsonError(_))
    ));
    assert!(matches!(
        decode_event("{\"id\":1,\"source\":\"s\",\"type\":\"t\",\"subject\":\"/x\"}"),
        Err(Error::JsonError(_))
    ));
    assert!(matches!(
        decode_event("{\"id\":\"1\",\"source\":\"s\",\"type\":\"t\",\"subject\":\"/x\",\"time\":3}"),
        Err(Error::JsonError(_))
    ));
    assert!(matches!(
        decode_event("{\"id\":\"1\",\"source\":\"s\",\"type\":\"t\",\"subject\":\"/x\",\"specversion\":null}"),
        Err(Error::JsonError(_))
    ));
    assert!(matches!(decode_event("[1,2]"), Err(Error::JsonError(_))));
    assert!(matches!(decode_event("{} trailing"), Err(Error::JsonError(_))));
}

#[test]
fn empty_batch_body_gives_no_results() {
    assert!(parse_value_lines(b"").unwrap().is_empty());
    assert!(parse_event_lines(b"").unwrap().is_empty());
    assert!(parse_value_lines(b"  \n\n ").unwrap().is_empty());
}

#[test]
fn batch_values_in_order() {
    let v = parse_value_lines(b"{\"name\":\"Result 1\"}\n{\"name\":\"Result 2\"}\n").unwrap();
    assert_eq!(v.len(), 2);
    assert_eq!(v[0]["name"], "Result 1");
    assert_eq!(v[1]["name"], "Result 2");
}

#[test]
fn batch_last_line_needs_no_newline() {
    let v = parse_value_lines(b"1\r\n\r\n2").unwrap();
    assert_eq!(v.len(), 2);
    assert_eq!(v[0], 1);
    assert_eq!(v[1], 2);
}

#[test]
fn batch_events_and_failure_aborts() {
    let body: &[u8] = b"{\"id\":\"1\",\"source\":\"s\",\"type\":\"t\",\"subject\":\"/test1\"}\n{\"id\":\"2\",\"source\":\"s\",\"type\":\"t\",\"subject\":\"/test2\"}\n";
    let events = parse_event_lines(body).unwrap();
    assert_eq!(events.len(), 2);
    assert_eq!(events[0].subject, "/test1");
    assert_eq!(events[1].subject, "/test2");
    assert!(matches!(parse_event_lines(b"{\"id\":\"1\"}\n"), Err(Error::JsonError(_))));
    assert!(matches!(parse_value_lines(b"1\n{\n2\n"), Err(Error::JsonError(_))));
}
