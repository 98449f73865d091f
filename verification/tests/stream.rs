use socket_relay::address::{IpSocketAddress, Ipv4SocketAddress, Ipv6SocketAddress};
use socket_relay::stream::{
    pipe_chunk, sink_events, socket_line, stream, stream_with, write_pipe, write_socket, EncodedRecord,
    Encoder, Event, Format, SinkPlan, SinkTarget, Stream, Writer, SLACK_MS, WATERMARK_FREQUENCY,
};

#[test]
fn stream_uses_the_usual_frequency() {
    let s = stream(Ok(vec![1u32, 2, 3]));
    assert_eq!(s.items, vec![1, 2, 3]);
    assert_eq!(s.watermark_frequency, 1000);
    assert_eq!(WATERMARK_FREQUENCY, 1000);
    assert_eq!(s.slack_ms, SLACK_MS);
    assert_eq!(SLACK_MS, 100);
}

#[test]
fn stream_with_keeps_the_frequency() {
    let s = stream_with(Ok(vec!["a", "b"]), 7);
    assert_eq!(s.items, vec!["a", "b"]);
    assert_eq!(s.watermark_frequency, 7);
}

#[test]
fn sink_forwards_data_until_sentinel() {
    let events = vec![
        Event::Watermark(0),
        Event::Data(1, 'a'),
        Event::Data(2, 'b'),
        Event::Watermark(2),
        Event::Data(3, 'c'),
        Event::Sentinel,
        Event::Data(4, 'd'),
    ];
    assert_eq!(sink_events(events), vec!['a', 'b', 'c']);
}

#[test]
fn sink_without_sentinel_forwards_everything() {
    let events = vec![Event::Data(1, 10), Event::Watermark(1), Event::Data(5, 20)];
    assert_eq!(sink_events(events), vec![10, 20]);
}

#[test]
fn sink_of_nothing() {
    assert_eq!(sink_events::<u8>(vec![Event::Sentinel, Event::Data(0, 1)]), Vec::<u8>::new());
    assert_eq!(sink_events::<u8>(vec![]), Vec::<u8>::new());
}

#[test]
fn encoding_and_writer_choices() {
    let addr = IpSocketAddress::Ipv4(Ipv4SocketAddress { address: (127, 0, 0, 1), port: 9000 });
    assert_eq!(
        Stream::<u8>::sink_encoding(Writer::Stdout, Format::Csv { sep: ';' }),
        SinkPlan { encoder: Encoder::Csv { sep: ';' }, target: SinkTarget::Stdout }
    );
    assert_eq!(
        Stream::<u8>::sink_encoding(Writer::File { path: "out.json".to_string() }, Format::Json),
        SinkPlan { encoder: Encoder::Json, target: SinkTarget::File { path: "out.json".to_string() } }
    );
    assert_eq!(
        Stream::<u8>::sink_encoding(Writer::Tcp { addr }, Format::Json),
        SinkPlan { encoder: Encoder::Json, target: SinkTarget::Socket { addr } }
    );
    assert_eq!(
        Stream::<u8>::sink_writer(Writer::Stdout, Encoder::Json),
        SinkPlan { encoder: Encoder::Json, target: SinkTarget::Stdout }
    );
}

#[test]
fn pipe_writes_the_encoded_prefix() {
    let mut buf = vec![0u8; 1024];
    buf[..6].copy_from_slice(b"1,2,3\n");
    assert_eq!(pipe_chunk(&buf, Ok(6)), Some(b"1,2,3\n".to_vec()));
    assert_eq!(pipe_chunk(&buf, Ok(0)), Some(vec![]));
    assert_eq!(pipe_chunk(&buf, Err("bad".to_string())), None);
}

#[test]
fn socket_replaces_the_last_byte_by_a_newline() {
    let mut buf = vec![0u8; 1024];
    buf[..4].copy_from_slice(b"{}\r\n");
    assert_eq!(socket_line(&buf, Ok(3)), Some(b"{}\n".to_vec()));
    assert_eq!(socket_line(&buf, Err("bad".to_string())), None);
}

#[test]
fn socket_line_equals_pipe_chunk_for_newline_terminated_records() {
    let mut buf = vec![0u8; 64];
    buf[..8].copy_from_slice(b"\"text\"\n\n");
    assert_eq!(socket_line(&buf, Ok(7)), pipe_chunk(&buf, Ok(7)));
}

#[test]
fn stream_is_stream_with_usual_frequency() {
    let a = stream(Ok(vec![4u8, 5]));
    let b = stream_with(Ok(vec![4u8, 5]), WATERMARK_FREQUENCY);
    assert_eq!((a.items, a.watermark_frequency, a.slack_ms), (b.items, b.watermark_frequency, b.slack_ms));
}

#[test]
fn tcp_writer_to_an_ipv6_address() {
    let addr = IpSocketAddress::Ipv6(Ipv6SocketAddress {
        port: 9000,
        flow_info: 0,
        address: (0, 0, 0, 0, 0, 0, 0, 1),
        scope_id: 0,
    });
    assert_eq!(
        Stream::<u8>::sink_writer(Writer::Tcp { addr }, Encoder::Json),
        SinkPlan { encoder: Encoder::Json, target: SinkTarget::Socket { addr } }
    );
}

fn record(text: &[u8], encoded: Result<usize, String>) -> EncodedRecord {
    let mut buf = vec![0u8; 16];
    buf[..text.len()].copy_from_slice(text);
    EncodedRecord { buf, encoded }
}

#[test]
fn pipe_sink_writes_chunks_in_order_skipping_failures() {
    let records = vec![
        record(b"1,a\n", Ok(4)),
        record(b"junk", Err("bad".to_string())),
        record(b"2,b\n", Ok(4)),
    ];
    assert_eq!(write_pipe(&records), b"1,a\n2,b\n".to_vec());
    assert_eq!(write_pipe(&vec![]), Vec::<u8>::new());
}

#[test]
fn socket_sink_writes_lines_in_order_skipping_failures() {
    let records = vec![
        record(b"{\"x\":1}\r", Ok(8)),
        record(b"zz", Err("bad".to_string())),
        record(b"{}\n", Ok(3)),
    ];
    assert_eq!(write_socket(&records), b"{\"x\":1}\n{}\n".to_vec());
}

#[test]
fn socket_sink_matches_pipe_sink_for_newline_terminated_records() {
    let records = vec![record(b"a;b\n", Ok(4)), record(b"", Err("e".to_string())), record(b"c\n", Ok(2))];
    assert_eq!(write_socket(&records), write_pipe(&records));
}
