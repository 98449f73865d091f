use vstd::prelude::*;
use vstd::slice::{slice_subrange, slice_to_vec};
use vstd::utf8::valid_utf8;

use crate::address::IpSocketAddress;

verus! {

/// How many items a source stream emits between two watermarks, unless
/// asked otherwise.
pub const WATERMARK_FREQUENCY: usize = 1000;

/// How late, in milliseconds, an item of a source stream may be.
pub const SLACK_MS: u64 = 100;

/// A source stream: the items it emits in order, and the watermark
/// frequency and slack it was created with.
pub struct Stream<T> {
    pub items: Vec<T>,
    pub watermark_frequency: usize,
    pub slack_ms: u64,
}

/// A stream's items, watermark frequency and slack.
pub open spec fn stream_view<T>(s: Stream<T>) -> (Seq<T>, usize, u64) {
    (s.items@, s.watermark_frequency, s.slack_ms)
}

/// The stream that `stream_with` makes of `iter` with `frequency`: the
/// items the source holds, that frequency, and the usual slack.
pub open spec fn spec_stream_with<T>(iter: Result<Vec<T>, String>, frequency: usize) -> (
    Seq<T>,
    usize,
    u64,
) {
    match iter {
        Ok(items) => (items@, frequency, SLACK_MS),
        Err(_) => (Seq::empty(), frequency, SLACK_MS),
    }
}

/// Creates a source stream of the items that `iter` holds, with a watermark
/// every `frequency` items. The source must have opened: the items of a
/// source that failed to open cannot be streamed.
pub fn stream_with<T>(iter: Result<Vec<T>, String>, frequency: usize) -> (s: Stream<T>)
    requires
        iter is Ok,
    ensures
        stream_view(s) == spec_stream_with(iter, frequency),
        iter matches Ok(items) && s.items@ == items@,
        s.watermark_frequency == frequency,
        s.slack_ms == SLACK_MS,
{
    match iter {
        Ok(items) => Stream { items, watermark_frequency: frequency, slack_ms: SLACK_MS },
        Err(_) => vstd::pervasive::unreached(),
    }
}

/// Creates a source stream with the usual watermark frequency: on every
/// input it is `stream_with(iter, WATERMARK_FREQUENCY)`, and like it needs
/// a source that opened.
pub fn stream<T>(iter: Result<Vec<T>, String>) -> (s: Stream<T>)
    requires
        iter is Ok,
    ensures
        stream_view(s) == spec_stream_with(iter, WATERMARK_FREQUENCY),
        iter matches Ok(items) && s.items@ == items@,
        s.watermark_frequency == WATERMARK_FREQUENCY,
        s.slack_ms == SLACK_MS,
{
    stream_with(iter, WATERMARK_FREQUENCY)
}

/// An event that a stream delivers.
pub enum Event<T> {
    /// An item, with its time.
    Data(u64, T),
    /// No later item will be earlier than this time.
    Watermark(u64),
    /// A snapshot marker.
    Snapshot(u64),
    /// The stream has ended.
    Sentinel,
}

/// Whether the events up to the first sentinel hold no snapshot marker.
pub open spec fn snapshot_free<T>(events: Seq<Event<T>>) -> bool
    decreases events.len(),
{
    if events.len() == 0 {
        true
    } else {
        match events[0] {
            Event::Snapshot(_) => false,
            Event::Sentinel => true,
            _ => snapshot_free(events.drop_first()),
        }
    }
}

/// The items of the data events before the first sentinel, in order.
pub open spec fn data_before_sentinel<T>(events: Seq<Event<T>>) -> Seq<T>
    decreases events.len(),
{
    if events.len() == 0 {
        Seq::empty()
    } else {
        match events[0] {
            Event::Data(_, item) => seq![item] + data_before_sentinel(events.drop_first()),
            Event::Sentinel => Seq::empty(),
            _ => data_before_sentinel(events.drop_first()),
        }
    }
}

/// What a sink forwards to its writer from the events it receives: every
/// item, in order, until the stream ends; watermarks are passed over.
/// Snapshot markers are not supported before the end of the stream.
pub fn sink_events<T>(events: Vec<Event<T>>) -> (items: Vec<T>)
    requires
        snapshot_free(events@),
    ensures
        items@ == data_before_sentinel(events@),
{
    let ghost original = events@;
    let mut events = events;
    let mut items: Vec<T> = Vec::new();
    while events.len() > 0
        invariant_except_break
            snapshot_free(events@),
            items@ + data_before_sentinel(events@) == data_before_sentinel(original),
        ensures
            items@ == data_before_sentinel(original),
        decreases events.len(),
    {
        let ghost before = events@;
        let event = events.remove(0);
        assert(events@ =~= before.drop_first());
        match event {
            Event::Data(_, item) => {
                items.push(item);
                assert(items@ + data_before_sentinel(events@) =~= data_before_sentinel(original));
            },
            Event::Watermark(_) => {},
            Event::Snapshot(_) => {},
            Event::Sentinel => {
                assert(items@ =~= items@ + Seq::<T>::empty());
                break;
            },
        }
    }
    items
}

/// The format in which a sink encodes its items.
#[derive(Debug, Clone, Copy, PartialEq, Eq, Structural)]
pub enum Format {
    /// Comma separated values, with `sep` between the fields.
    Csv { sep: char },
    Json,
}

/// Where a sink writes its encoded items.
#[derive(Debug, Clone, PartialEq, Eq)]
pub enum Writer {
    Stdout,
    File { path: String },
    Tcp { addr: IpSocketAddress },
    Kafka { addr: String, topic: String },
}

/// The encoder that a sink uses.
#[derive(Debug, Clone, Copy, PartialEq, Eq, Structural)]
pub enum Encoder {
    /// Writes comma separated values with `sep` between the fields.
    Csv { sep: char },
    /// Writes JSON values.
    Json,
}

/// The way a sink writes: through a pipe to standard output, to a file
/// (which is created), or line by line to a TCP socket.
#[derive(Debug, Clone, PartialEq, Eq)]
pub enum SinkTarget {
    Stdout,
    File { path: String },
    Socket { addr: IpSocketAddress },
}

/// How a sink encodes and where it writes.
#[derive(Debug, Clone, PartialEq, Eq)]
pub struct SinkPlan {
    pub encoder: Encoder,
    pub target: SinkTarget,
}

/// The encoder for `format`.
pub open spec fn spec_encoder(format: Format) -> Encoder {
    match format {
        Format::Csv { sep } => Encoder::Csv { sep },
        Format::Json => Encoder::Json,
    }
}


/// The target that `writer` names; Kafka names none.
pub open spec fn spec_target(writer: Writer) -> Option<SinkTarget> {
    match writer {
        Writer::Stdout => Some(SinkTarget::Stdout),
        Writer::File { path } => Some(SinkTarget::File { path }),
        Writer::Tcp { addr } => Some(SinkTarget::Socket { addr }),
        Writer::Kafka { .. } => None,
    }
}

impl<T> Stream<T> {
    /// Chooses the encoder for `encoding` and the target for `writer`.
    pub fn sink_encoding(writer: Writer, encoding: Format) -> (plan: SinkPlan)
        requires
            !(writer is Kafka),
        ensures
            plan.encoder == spec_encoder(encoding),
            spec_target(writer) == Some(plan.target),
    {
        match encoding {
            Format::Csv { sep } => {
                let encoder = Encoder::Csv { sep };
                Self::sink_writer(writer, encoder)
            },
            Format::Json => {
                let encoder = Encoder::Json;
                Self::sink_writer(writer, encoder)
            },
        }
    }

    /// Chooses the target for `writer`, writing with `encoder`.
    pub fn sink_writer(writer: Writer, encoder: Encoder) -> (plan: SinkPlan)
        requires
            !(writer is Kafka),
        ensures
            plan.encoder == encoder,
            spec_target(writer) == Some(plan.target),
    {
        let target = match writer {
            Writer::Stdout => SinkTarget::Stdout,
            Writer::File { path } => SinkTarget::File { path },
            Writer::Tcp { addr } => SinkTarget::Socket { addr },
            Writer::Kafka { .. } => vstd::pervasive::unreached(),
        };
        SinkPlan { encoder, target }
    }
}

/// What a pipe writes for one item: the `n` bytes that the encoder put in
/// front of `buf`, or nothing when encoding failed.
pub open spec fn spec_pipe_chunk(buf: Seq<u8>, encoded: Option<nat>) -> Option<Seq<u8>> {
    match encoded {
        Some(n) => Some(buf.take(n as int)),
        None => None,
    }
}

/// What a socket writes for one item: the line the encoder put in front of
/// `buf`, its last byte replaced by a newline, or nothing when encoding
/// failed.
pub open spec fn spec_socket_line(buf: Seq<u8>, encoded: Option<nat>) -> Option<Seq<u8>> {
    match encoded {
        Some(n) => Some(buf.take(n - 1).push(10u8)),
        None => None,
    }
}

/// The encoder's outcome as a byte count, if it succeeded.
pub open spec fn encoded_len(encoded: Result<usize, String>) -> Option<nat> {
    match encoded {
        Ok(n) => Some(n as nat),
        Err(_) => None,
    }
}

/// The bytes a pipe writes for one item, given the outcome of encoding the
/// item into `buf`.
pub fn pipe_chunk(buf: &[u8], encoded: Result<usize, String>) -> (out: Option<Vec<u8>>)
    requires
        encoded matches Ok(n) ==> n <= buf@.len(),
    ensures
        match spec_pipe_chunk(buf@, encoded_len(encoded)) {
            Some(bytes) => out matches Some(v) && v@ == bytes,
            None => out is None,
        },
{
    match encoded {
        Ok(n) => Some(slice_to_vec(slice_subrange(buf, 0, n))),
        Err(_) => None,
    }
}

/// The line a socket writes for one item, given the outcome of encoding the
/// item into `buf`. The encoding must be a text line: at least one byte,
/// valid UTF-8 before its last byte.
pub fn socket_line(buf: &[u8], encoded: Result<usize, String>) -> (out: Option<Vec<u8>>)
    requires
        encoded matches Ok(n) ==> 1 <= n <= buf@.len() && valid_utf8(buf@.take(n - 1)),
    ensures
        match spec_socket_line(buf@, encoded_len(encoded)) {
            Some(bytes) => out matches Some(v) && v@ == bytes,
            None => out is None,
        },
{
    match encoded {
        Ok(n) => {
            let mut line = slice_to_vec(slice_subrange(buf, 0, n - 1));
            line.push(10u8);
            Some(line)
        },
        Err(_) => None,
    }
}

/// When the encoder ends an item with a newline, as its lines do, and the
/// line before it is text, a socket writes for the item exactly what a pipe
/// writes.
pub proof fn lemma_socket_line_matches_pipe(buf: Seq<u8>, n: nat)
    requires
        1 <= n <= buf.len(),
        buf[n - 1] == 10u8,
        valid_utf8(buf.take(n - 1)),
    ensures
        spec_socket_line(buf, Some(n)) == spec_pipe_chunk(buf, Some(n)),
{
    assert(buf.take(n - 1).push(10u8) =~= buf.take(n as int));
}

/// One item as the encoder left it: the buffer it encoded into, and the
/// outcome, the number of bytes it wrote or an error.
pub struct EncodedRecord {
    pub buf: Vec<u8>,
    pub encoded: Result<usize, String>,
}

/// The chunk written for `record`, or nothing.
pub open spec fn record_chunk(record: EncodedRecord, to_socket: bool) -> Seq<u8> {
    let out = if to_socket {
        spec_socket_line(record.buf@, encoded_len(record.encoded))
    } else {
        spec_pipe_chunk(record.buf@, encoded_len(record.encoded))
    };
    match out {
        Some(bytes) => bytes,
        None => Seq::empty(),
    }
}

/// Everything written for `records`, in order: each record's chunk, and
/// nothing for a record whose encoding failed.
pub open spec fn sink_output(records: Seq<EncodedRecord>, to_socket: bool) -> Seq<u8>
    decreases records.len(),
{
    if records.len() == 0 {
        Seq::empty()
    } else {
        sink_output(records.drop_last(), to_socket) + record_chunk(records.last(), to_socket)
    }
}

/// Whether the encoder stayed within its buffer for every record.
pub open spec fn pipe_records_fit(records: Seq<EncodedRecord>) -> bool {
    forall|i: int|
        0 <= i < records.len() ==> ((#[trigger] records[i]).encoded matches Ok(n) ==> n
            <= records[i].buf@.len())
}

/// Whether every record encoded for a socket is a text line: at least one
/// byte within the buffer, valid UTF-8 before its last byte.
pub open spec fn socket_records_fit(records: Seq<EncodedRecord>) -> bool {
    forall|i: int|
        0 <= i < records.len() ==> ((#[trigger] records[i]).encoded matches Ok(n) ==> 1 <= n
            <= records[i].buf@.len() && valid_utf8(records[i].buf@.take(n - 1)))
}

/// What a pipe sink writes for the items it received, in order: the
/// concatenation of the chunks of the records that encoded, failed
/// encodings written as nothing. The pipe is flushed once, at the end.
pub fn write_pipe(records: &Vec<EncodedRecord>) -> (written: Vec<u8>)
    requires
        pipe_records_fit(records@),
    ensures
        written@ == sink_output(records@, false),
{
    let mut written: Vec<u8> = Vec::new();
    let len = records.len();
    for i in 0..len
        invariant
            len == records@.len(),
            pipe_records_fit(records@),
            written@ == sink_output(records@.take(i as int), false),
    {
        let record = &records[i];
        assert(records@.take(i + 1).drop_last() =~= records@.take(i as int));
        assert(records@.take(i + 1).last() == records@[i as int]);
        match &record.encoded {
            Ok(n) => {
                let chunk = pipe_chunk(record.buf.as_slice(), Ok(*n));
                if let Some(mut bytes) = chunk {
                    written.append(&mut bytes);
                }
            },
            Err(_) => {},
        }
    }
    assert(records@.take(len as int) =~= records@);
    written
}

/// What a socket sink writes for the items it received, in order: the
/// concatenation of the lines of the records that encoded, failed
/// encodings written as nothing. The socket is flushed after each line.
pub fn write_socket(records: &Vec<EncodedRecord>) -> (written: Vec<u8>)
    requires
        socket_records_fit(records@),
    ensures
        written@ == sink_output(records@, true),
{
    let mut written: Vec<u8> = Vec::new();
    let len = records.len();
    for i in 0..len
        invariant
            len == records@.len(),
            socket_records_fit(records@),
            written@ == sink_output(records@.take(i as int), true),
    {
        let record = &records[i];
        assert(records@.take(i + 1).drop_last() =~= records@.take(i as int));
        assert(records@.take(i + 1).last() == records@[i as int]);
        match &record.encoded {
            Ok(n) => {
                let line = socket_line(record.buf.as_slice(), Ok(*n));
                if let Some(mut bytes) = line {
                    written.append(&mut bytes);
                }
            },
            Err(_) => {},
        }
    }
    assert(records@.take(len as int) =~= records@);
    written
}

/// When every record that encoded is a text line ending in a newline, a
/// socket sink writes exactly what a pipe sink writes.
pub proof fn lemma_socket_sink_matches_pipe_sink(records: Seq<EncodedRecord>)
    requires
        socket_records_fit(records),
        forall|i: int|
            0 <= i < records.len() ==> ((#[trigger] records[i]).encoded matches Ok(n)
                ==> records[i].buf@[n - 1] == 10u8),
    ensures
        sink_output(records, true) == sink_output(records, false),
    decreases records.len(),
{
    if records.len() > 0 {
        let last = records.last();
        assert(records.drop_last().len() == records.len() - 1);
        assert forall|i: int| 0 <= i < records.drop_last().len() implies ((
        #[trigger] records.drop_last()[i]).encoded matches Ok(n) ==> 1 <= n
            <= records.drop_last()[i].buf@.len() && valid_utf8(
            records.drop_last()[i].buf@.take(n - 1),
        ) && records.drop_last()[i].buf@[n - 1] == 10u8) by {
            assert(records.drop_last()[i] == records[i]);
        }
        lemma_socket_sink_matches_pipe_sink(records.drop_last());
        assert(records[records.len() - 1] == last);
        if let Ok(n) = last.encoded {
            lemma_socket_line_matches_pipe(last.buf@, n as nat);
        }
    }
}

/// The item of a data event, if the event is one.
pub open spec fn data_item<T>(event: Event<T>) -> Option<T> {
    match event {
        Event::Data(_, item) => Some(item),
        _ => None,
    }
}

proof fn lemma_filter_map_prepend<A, B>(x: A, s: Seq<A>, f: spec_fn(A) -> Option<B>)
    ensures
        (seq![x] + s).filter_map(f) == (match f(x) {
            Some(b) => seq![b],
            None => Seq::<B>::empty(),
        }) + s.filter_map(f),
    decreases s.len(),
{
    let head = match f(x) {
        Some(b) => seq![b],
        None => Seq::<B>::empty(),
    };
    if s.len() == 0 {
        assert((seq![x] + s) =~= seq![x]);
        assert(seq![x].drop_last() =~= Seq::<A>::empty());
        assert(s =~= Seq::<A>::empty());
        assert(Seq::<A>::empty().filter_map(f) =~= Seq::<B>::empty());
        assert(seq![x].last() == x);
        assert(seq![x].filter_map(f) =~= Seq::<A>::empty().filter_map(f) + head);
        assert(seq![x].filter_map(f) =~= head + s.filter_map(f));
    } else {
        assert((seq![x] + s).drop_last() =~= seq![x] + s.drop_last());
        assert((seq![x] + s).last() == s.last());
        lemma_filter_map_prepend(x, s.drop_last(), f);
        match f(s.last()) {
            Some(b) => {
                assert((seq![x] + s).filter_map(f) =~= head + s.filter_map(f));
            },
            None => {
                assert((seq![x] + s).filter_map(f) =~= head + s.filter_map(f));
            },
        }
    }
}

/// A sink forwards one item per data event before the end of the stream,
/// whatever the events' times: with `cut` the position of the first
/// sentinel (or the length, when there is none), what is forwarded is the
/// items of the data events among the first `cut` events, in order.
pub proof fn lemma_sink_forwards_every_data_item<T>(events: Seq<Event<T>>, cut: int)
    requires
        0 <= cut <= events.len(),
        forall|i: int| 0 <= i < cut ==> !(#[trigger] events[i] is Sentinel),
        cut == events.len() || events[cut] is Sentinel,
    ensures
        data_before_sentinel(events) == events.take(cut).filter_map(
            |e: Event<T>| data_item(e),
        ),
    decreases events.len(),
{
    let f = |e: Event<T>| data_item(e);
    if events.len() == 0 {
        assert(events.take(cut) =~= Seq::<Event<T>>::empty());
    } else if cut == 0 {
        assert(events[0] is Sentinel);
        assert(events.take(cut) =~= Seq::<Event<T>>::empty());
    } else {
        let rest = events.drop_first();
        assert forall|i: int| 0 <= i < cut - 1 implies !(#[trigger] rest[i] is Sentinel) by {
            assert(rest[i] == events[i + 1]);
        }
        if cut < events.len() {
            assert(rest[cut - 1] == events[cut]);
        }
        lemma_sink_forwards_every_data_item(rest, cut - 1);
        assert(events.take(cut) =~= seq![events[0]] + rest.take(cut - 1));
        lemma_filter_map_prepend(events[0], rest.take(cut - 1), f);
    }
}

/// A sink writes the records of one batch after those of an earlier batch:
/// what it writes for `a + b` is what it writes for `a`, then for `b`; and
/// for a single record that encoded `n` bytes, a pipe writes the first `n`
/// bytes of the buffer.
pub proof fn lemma_sink_output_in_order(
    a: Seq<EncodedRecord>,
    b: Seq<EncodedRecord>,
    to_socket: bool,
)
    ensures
        sink_output(a + b, to_socket) == sink_output(a, to_socket) + sink_output(b, to_socket),
        forall|r: EncodedRecord|
            #![trigger sink_output(seq![r], false)]
            (r.encoded matches Ok(n) ==> sink_output(seq![r], false) == r.buf@.take(n as int)),
        forall|r: EncodedRecord|
            #![trigger sink_output(seq![r], to_socket)]
            r.encoded is Err ==> sink_output(seq![r], to_socket) == Seq::<u8>::empty(),
    decreases b.len(),
{
    if b.len() == 0 {
        assert(a + b =~= a);
        assert(sink_output(a, to_socket) + Seq::<u8>::empty() =~= sink_output(a, to_socket));
    } else {
        lemma_sink_output_in_order(a, b.drop_last(), to_socket);
        assert((a + b).drop_last() =~= a + b.drop_last());
        assert((a + b).last() == b.last());
    }
    assert forall|r: EncodedRecord| #![trigger sink_output(seq![r], false)] (r.encoded matches Ok(
        n,
    ) ==> sink_output(seq![r], false) == r.buf@.take(n as int)) by {
        lemma_sink_output_single(r, false);
    }
    assert forall|r: EncodedRecord| #![trigger sink_output(seq![r], to_socket)]
        r.encoded is Err implies sink_output(seq![r], to_socket) == Seq::<u8>::empty() by {
        lemma_sink_output_single(r, to_socket);
    }
}

proof fn lemma_sink_output_single(r: EncodedRecord, to_socket: bool)
    ensures
        sink_output(seq![r], to_socket) == record_chunk(r, to_socket),
{
    assert(seq![r].drop_last() =~= Seq::<EncodedRecord>::empty());
    assert(seq![r].last() == r);
    assert(sink_output(Seq::<EncodedRecord>::empty(), to_socket) == Seq::<u8>::empty());
    assert(Seq::<u8>::empty() + record_chunk(r, to_socket) =~= record_chunk(r, to_socket));
}

/// A socket line differs from the pipe chunk of the same encoding only in
/// its last byte, which is always a newline.
pub proof fn lemma_socket_line_replaces_last_byte(buf: Seq<u8>, n: nat)
    requires
        1 <= n <= buf.len(),
    ensures
        spec_socket_line(buf, Some(n)) matches Some(line) && spec_pipe_chunk(buf, Some(n)) matches Some(
            chunk,
        ) && line.len() == chunk.len() && line.last() == 10u8 && forall|i: int|
            0 <= i < n - 1 ==> line[i] == chunk[i],
{
}

/// A sink encodes in the format it is given, CSV keeping its separator,
/// and writes where its writer points: standard output, the named file, or
/// the given socket address.
pub proof fn lemma_sink_plan_table(sep: char, path: String, addr: IpSocketAddress)
    ensures
        spec_encoder((Format::Csv { sep })) == (Encoder::Csv { sep }),
        spec_encoder(Format::Json) == Encoder::Json,
        spec_target(Writer::Stdout) == Some(SinkTarget::Stdout),
        spec_target((Writer::File { path })) == Some((SinkTarget::File { path })),
        spec_target((Writer::Tcp { addr })) == Some((SinkTarget::Socket { addr })),
{
}

} // verus!
