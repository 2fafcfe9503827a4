//! The counters in the Prometheus text format.
use crate::server::observe;
use crate::server::observe::{ServiceSnapshot, ServiceSnapshotView, StatsSnapshot};
use crate::text;
use vstd::prelude::*;

verus! {

/// A character as a label value shows it.
pub open spec fn escaped_char(c: char) -> Seq<char> {
    if c == '\\' {
        seq!['\\', '\\']
    } else if c == '"' {
        seq!['\\', '"']
    } else if c == '\n' {
        seq!['\\', 'n']
    } else {
        seq![c]
    }
}

/// A text as a label value shows it.
pub open spec fn escaped(s: Seq<char>) -> Seq<char>
    decreases s.len(),
{
    if s.len() == 0 {
        Seq::empty()
    } else {
        escaped(s.drop_last()) + escaped_char(s.last())
    }
}

/// Escapes a label value.
pub fn escape_label(value: &str) -> (r: String)
    ensures
        r@ == escaped(value@),
{
    let chars = text::chars_of(value);
    let mut out = String::new();
    let mut i: usize = 0;
    while i < chars.len()
        invariant
            i <= chars@.len(),
            chars@ == value@,
            out@ == escaped(value@.take(i as int)),
        decreases chars@.len() - i,
    {
        let c = chars[i];
        let ghost before = out@;
        if c == '\\' {
            out.push('\\');
            out.push('\\');
        } else if c == '"' {
            out.push('\\');
            out.push('"');
        } else if c == '\n' {
            out.push('\\');
            out.push('n');
        } else {
            out.push(c);
        }
        proof {
            assert(out@ =~= before + escaped_char(c));
            assert(value@.take(i + 1).drop_last() =~= value@.take(i as int));
        }
        i += 1;
    }
    proof {
        assert(value@.take(value@.len() as int) =~= value@);
    }
    out
}

/// The text that a label value stands for.
pub open spec fn unescaped(s: Seq<char>) -> Seq<char>
    decreases s.len(),
{
    if s.len() == 0 {
        Seq::empty()
    } else if s[0] == '\\' && s.len() >= 2 {
        seq![
            if s[1] == 'n' {
                '\n'
            } else {
                s[1]
            },
        ] + unescaped(s.skip(2))
    } else {
        seq![s[0]] + unescaped(s.skip(1))
    }
}

/// A label value keeps the whole name of a service, and holds no line break.
pub proof fn law_escaping_is_reversible(s: Seq<char>)
    ensures
        unescaped(escaped(s)) == s,
        !escaped(s).contains('\n'),
    decreases s.len(),
{
    if s.len() > 0 {
        let rest = s.skip(1);
        lemma_escaped_front(s);
        law_escaping_is_reversible(rest);
        let e = escaped(s);
        let first = escaped_char(s[0]);
        assert(e =~= first + escaped(rest));
        assert(e.skip(first.len() as int) =~= escaped(rest));
        assert(unescaped(e) =~= seq![s[0]] + rest);
        assert(seq![s[0]] + rest =~= s);
        if e.contains('\n') {
            let i = choose|i: int| 0 <= i < e.len() && e[i] == '\n';
            assert(i >= first.len());
            assert(escaped(rest)[i - first.len()] == '\n');
        }
    }
}

proof fn lemma_escaped_front(s: Seq<char>)
    requires
        s.len() > 0,
    ensures
        escaped(s) == escaped_char(s[0]) + escaped(s.skip(1)),
    decreases s.len(),
{
    if s.len() == 1 {
        assert(s.drop_last() =~= Seq::<char>::empty());
        assert(s.skip(1) =~= Seq::<char>::empty());
        assert(escaped(s.drop_last()) =~= Seq::<char>::empty());
        assert(escaped(s.skip(1)) =~= Seq::<char>::empty());
        assert(escaped(s) =~= escaped_char(s[0]) + escaped(s.skip(1)));
    } else {
        lemma_escaped_front(s.drop_last());
        assert(s.drop_last().skip(1) =~= s.skip(1).drop_last());
        assert(s.skip(1).last() == s.last());
        assert(escaped(s) =~= escaped_char(s[0]) + (escaped(s.skip(1).drop_last()) + escaped_char(
            s.last(),
        )));
    }
}

/// A number that is exported for every service.
#[derive(Clone, Copy, PartialEq, Eq, Debug, Structural)]
pub enum Metric {
    ControlConnected,
    ConnectionsActive,
    ConnectionsTotal,
    DataChannelsReused,
    BytesIn,
    BytesOut,
    WireBytesIn,
    WireBytesOut,
    DatagramsIn,
    DatagramsOut,
}

/// The name of a metric.
pub open spec fn metric_name(m: Metric) -> Seq<char> {
    match m {
        Metric::ControlConnected => "rathole_control_connected"@,
        Metric::ConnectionsActive => "rathole_connections_active"@,
        Metric::ConnectionsTotal => "rathole_connections_total"@,
        Metric::DataChannelsReused => "rathole_data_channels_reused_total"@,
        Metric::BytesIn => "rathole_bytes_in_total"@,
        Metric::BytesOut => "rathole_bytes_out_total"@,
        Metric::WireBytesIn => "rathole_wire_bytes_in_total"@,
        Metric::WireBytesOut => "rathole_wire_bytes_out_total"@,
        Metric::DatagramsIn => "rathole_datagrams_in_total"@,
        Metric::DatagramsOut => "rathole_datagrams_out_total"@,
    }
}

/// What a metric is about.
pub open spec fn metric_help(m: Metric) -> Seq<char> {
    match m {
        Metric::ControlConnected => "1 if the service control channel is connected."@,
        Metric::ConnectionsActive => "Currently forwarding TCP visitor sessions."@,
        Metric::ConnectionsTotal => "Accepted TCP visitor sessions."@,
        Metric::DataChannelsReused => "TCP visitor sessions served over a reused data channel."@,
        Metric::BytesIn => "Visitor-facing bytes received (public to client)."@,
        Metric::BytesOut => "Visitor-facing bytes sent (client to public)."@,
        Metric::WireBytesIn => "Data-channel bytes received after optional compression."@,
        Metric::WireBytesOut => "Data-channel bytes sent after optional compression."@,
        Metric::DatagramsIn => "UDP datagrams received from visitors."@,
        Metric::DatagramsOut => "UDP datagrams sent to visitors."@,
    }
}

/// Whether a metric goes up and down or only up.
pub open spec fn metric_kind(m: Metric) -> Seq<char> {
    match m {
        Metric::ControlConnected => "gauge"@,
        Metric::ConnectionsActive => "gauge"@,
        _ => "counter"@,
    }
}

/// The value of a metric for a service.
pub open spec fn metric_value(m: Metric, s: ServiceSnapshotView) -> u64 {
    match m {
        Metric::ControlConnected => if s.control_connected {
            1
        } else {
            0
        },
        Metric::ConnectionsActive => s.connections_active,
        Metric::ConnectionsTotal => s.connections_total,
        Metric::DataChannelsReused => s.data_channels_reused,
        Metric::BytesIn => s.bytes_in,
        Metric::BytesOut => s.bytes_out,
        Metric::WireBytesIn => s.wire_bytes_in,
        Metric::WireBytesOut => s.wire_bytes_out,
        Metric::DatagramsIn => s.datagrams_in,
        Metric::DatagramsOut => s.datagrams_out,
    }
}

impl Metric {
    fn name(self) -> (r: &'static str)
        ensures
            r@ == metric_name(self),
    {
        match self {
            Metric::ControlConnected => "rathole_control_connected",
            Metric::ConnectionsActive => "rathole_connections_active",
            Metric::ConnectionsTotal => "rathole_connections_total",
            Metric::DataChannelsReused => "rathole_data_channels_reused_total",
            Metric::BytesIn => "rathole_bytes_in_total",
            Metric::BytesOut => "rathole_bytes_out_total",
            Metric::WireBytesIn => "rathole_wire_bytes_in_total",
            Metric::WireBytesOut => "rathole_wire_bytes_out_total",
            Metric::DatagramsIn => "rathole_datagrams_in_total",
            Metric::DatagramsOut => "rathole_datagrams_out_total",
        }
    }

    fn help(self) -> (r: &'static str)
        ensures
            r@ == metric_help(self),
    {
        match self {
            Metric::ControlConnected => "1 if the service control channel is connected.",
            Metric::ConnectionsActive => "Currently forwarding TCP visitor sessions.",
            Metric::ConnectionsTotal => "Accepted TCP visitor sessions.",
            Metric::DataChannelsReused => "TCP visitor sessions served over a reused data channel.",
            Metric::BytesIn => "Visitor-facing bytes received (public to client).",
            Metric::BytesOut => "Visitor-facing bytes sent (client to public).",
            Metric::WireBytesIn => "Data-channel bytes received after optional compression.",
            Metric::WireBytesOut => "Data-channel bytes sent after optional compression.",
            Metric::DatagramsIn => "UDP datagrams received from visitors.",
            Metric::DatagramsOut => "UDP datagrams sent to visitors.",
        }
    }

    fn kind(self) -> (r: &'static str)
        ensures
            r@ == metric_kind(self),
    {
        match self {
            Metric::ControlConnected => "gauge",
            Metric::ConnectionsActive => "gauge",
            _ => "counter",
        }
    }

    fn value(self, s: &ServiceSnapshot) -> (r: u64)
        ensures
            r == metric_value(self, s@),
    {
        match self {
            Metric::ControlConnected => if s.control_connected {
                1
            } else {
                0
            },
            Metric::ConnectionsActive => s.connections_active,
            Metric::ConnectionsTotal => s.connections_total,
            Metric::DataChannelsReused => s.data_channels_reused,
            Metric::BytesIn => s.bytes_in,
            Metric::BytesOut => s.bytes_out,
            Metric::WireBytesIn => s.wire_bytes_in,
            Metric::WireBytesOut => s.wire_bytes_out,
            Metric::DatagramsIn => s.datagrams_in,
            Metric::DatagramsOut => s.datagrams_out,
        }
    }
}

/// The lines that introduce a metric.
pub open spec fn metric_header(name: Seq<char>, help: Seq<char>, kind: Seq<char>) -> Seq<char> {
    "# HELP "@ + name + " "@ + help + "\n# TYPE "@ + name + " "@ + kind + "\n"@
}

/// The line of a metric for a service.
pub open spec fn series_line(name: Seq<char>, s: ServiceSnapshotView, value: Seq<char>) -> Seq<
    char,
> {
    name + "{service=\""@ + escaped(s.name) + "\",type=\""@ + s.service_type + "\"} "@ + value
        + "\n"@
}

/// The lines of a metric for all services.
pub open spec fn series_lines(m: Metric, services: Seq<ServiceSnapshotView>) -> Seq<char>
    decreases services.len(),
{
    if services.len() == 0 {
        Seq::empty()
    } else {
        series_lines(m, services.drop_last()) + series_line(
            metric_name(m),
            services.last(),
            text::decimal(metric_value(m, services.last()) as nat),
        )
    }
}

/// Everything about a metric.
pub open spec fn metric_block(m: Metric, services: Seq<ServiceSnapshotView>) -> Seq<char> {
    metric_header(metric_name(m), metric_help(m), metric_kind(m)) + series_lines(m, services)
}

/// The lines of the compression ratio, for the services that have one. `ratios` holds the
/// ratios as text.
pub open spec fn ratio_lines(services: Seq<ServiceSnapshotView>, ratios: Seq<Seq<char>>) -> Seq<
    char,
>
    decreases services.len(),
{
    if services.len() == 0 {
        Seq::empty()
    } else {
        let before = ratio_lines(services.drop_last(), ratios);
        if services.last().compression_ratio is Some {
            before + series_line(
                "rathole_compression_ratio"@,
                services.last(),
                ratios[services.len() - 1],
            )
        } else {
            before
        }
    }
}

/// All metrics.
pub open spec fn prometheus(
    uptime_secs: u64,
    services: Seq<ServiceSnapshotView>,
    ratios: Seq<Seq<char>>,
) -> Seq<char> {
    metric_header(
        "rathole_uptime_seconds"@,
        "Seconds since the observation endpoint started."@,
        "gauge"@,
    ) + "rathole_uptime_seconds "@ + text::decimal(uptime_secs as nat) + "\n"@ + metric_block(
        Metric::ControlConnected,
        services,
    ) + metric_block(Metric::ConnectionsActive, services) + metric_block(
        Metric::ConnectionsTotal,
        services,
    ) + metric_block(Metric::DataChannelsReused, services) + metric_block(
        Metric::BytesIn,
        services,
    ) + metric_block(Metric::BytesOut, services) + metric_block(Metric::WireBytesIn, services)
        + metric_block(Metric::WireBytesOut, services) + metric_block(Metric::DatagramsIn, services)
        + metric_block(Metric::DatagramsOut, services) + metric_header(
        "rathole_compression_ratio"@,
        "Visitor bytes divided by data-channel bytes. Only set when compression is enabled."@,
        "gauge"@,
    ) + ratio_lines(services, ratios)
}

fn push_header(out: &mut String, name: &str, help: &str, kind: &str)
    ensures
        final(out)@ == old(out)@ + metric_header(name@, help@, kind@),
{
    out.push_str("# HELP ");
    out.push_str(name);
    out.push_str(" ");
    out.push_str(help);
    out.push_str("\n# TYPE ");
    out.push_str(name);
    out.push_str(" ");
    out.push_str(kind);
    out.push_str("\n");
    proof {
        assert(out@ =~= old(out)@ + metric_header(name@, help@, kind@));
    }
}

fn push_series(out: &mut String, name: &str, service: &ServiceSnapshot, value: &str)
    ensures
        final(out)@ == old(out)@ + series_line(name@, service@, value@),
{
    let label = escape_label(service.name.as_str());
    out.push_str(name);
    out.push_str("{service=\"");
    out.push_str(label.as_str());
    out.push_str("\",type=\"");
    out.push_str(service.service_type);
    out.push_str("\"} ");
    out.push_str(value);
    out.push_str("\n");
    proof {
        assert(out@ =~= old(out)@ + series_line(name@, service@, value@));
    }
}

fn push_metric(out: &mut String, m: Metric, services: &Vec<ServiceSnapshot>)
    ensures
        final(out)@ == old(out)@ + metric_block(m, observe::snapshot_views(services@)),
{
    push_header(out, m.name(), m.help(), m.kind());
    let ghost start = out@;
    let ghost views = observe::snapshot_views(services@);
    let mut i: usize = 0;
    while i < services.len()
        invariant
            i <= services@.len(),
            views == observe::snapshot_views(services@),
            out@ == start + series_lines(m, views.take(i as int)),
        decreases services@.len() - i,
    {
        let value = text::decimal_text(m.value(&services[i]));
        push_series(out, m.name(), &services[i], value.as_str());
        proof {
            let next = views.take(i + 1);
            assert(next.drop_last() =~= views.take(i as int));
            assert(next.last() == services@[i as int]@);
            assert(out@ =~= start + series_lines(m, next));
        }
        i += 1;
    }
    proof {
        assert(views.take(views.len() as int) =~= views);
        assert(out@ =~= old(out)@ + metric_block(m, views));
    }
}

/// The counters as Prometheus reads them. `ratios` holds the compression ratio of each
/// service as text; it counts only where the service has one.
pub fn prometheus_text(snapshot: &StatsSnapshot, ratios: &Vec<String>) -> (r: String)
    requires
        ratios@.len() == snapshot.services@.len(),
    ensures
        r@ == prometheus(
            snapshot.uptime_secs,
            observe::snapshot_views(snapshot.services@),
            crate::config::texts(ratios@),
        ),
{
    let mut out = String::new();
    let services = &snapshot.services;
    push_header(
        &mut out,
        "rathole_uptime_seconds",
        "Seconds since the observation endpoint started.",
        "gauge",
    );
    out.push_str("rathole_uptime_seconds ");
    text::push_decimal(&mut out, snapshot.uptime_secs);
    out.push_str("\n");
    push_metric(&mut out, Metric::ControlConnected, services);
    push_metric(&mut out, Metric::ConnectionsActive, services);
    push_metric(&mut out, Metric::ConnectionsTotal, services);
    push_metric(&mut out, Metric::DataChannelsReused, services);
    push_metric(&mut out, Metric::BytesIn, services);
    push_metric(&mut out, Metric::BytesOut, services);
    push_metric(&mut out, Metric::WireBytesIn, services);
    push_metric(&mut out, Metric::WireBytesOut, services);
    push_metric(&mut out, Metric::DatagramsIn, services);
    push_metric(&mut out, Metric::DatagramsOut, services);
    push_header(
        &mut out,
        "rathole_compression_ratio",
        "Visitor bytes divided by data-channel bytes. Only set when compression is enabled.",
        "gauge",
    );
    let ghost start = out@;
    let ghost views = observe::snapshot_views(services@);
    let ghost texts = crate::config::texts(ratios@);
    let mut i: usize = 0;
    while i < services.len()
        invariant
            i <= services@.len(),
            ratios@.len() == services@.len(),
            views == observe::snapshot_views(services@),
            texts == crate::config::texts(ratios@),
            out@ == start + ratio_lines(views.take(i as int), texts),
        decreases services@.len() - i,
    {
        let ghost next = views.take(i + 1);
        proof {
            assert(next.drop_last() =~= views.take(i as int));
            assert(next.last() == services@[i as int]@);
        }
        if services[i].compression_ratio.is_some() {
            push_series(
                &mut out,
                "rathole_compression_ratio",
                &services[i],
                ratios[i].as_str(),
            );
        }
        proof {
            assert(out@ =~= start + ratio_lines(next, texts));
        }
        i += 1;
    }
    proof {
        assert(views.take(views.len() as int) =~= views);
        assert(out@ =~= prometheus(snapshot.uptime_secs, views, texts));
    }
    out
}

/// The complete lines of a text, without their line breaks, and what comes behind the last line
/// break.
#[verifier::opaque]
pub open spec fn cut(s: Seq<char>) -> (Seq<Seq<char>>, Seq<char>)
    decreases s.len(),
{
    if s.len() == 0 {
        (Seq::empty(), Seq::empty())
    } else {
        let (lines, open) = cut(s.drop_last());
        if s.last() == '\n' {
            (lines.push(open), Seq::empty())
        } else {
            (lines, open.push(s.last()))
        }
    }
}

/// Whether the line begins with the prefix.
pub open spec fn begins(line: Seq<char>, prefix: Seq<char>) -> bool {
    prefix.len() <= line.len() && line.take(prefix.len() as int) == prefix
}

/// Those of the lines that begin with the prefix, in order.
#[verifier::opaque]
pub open spec fn beginning(lines: Seq<Seq<char>>, prefix: Seq<char>) -> Seq<Seq<char>>
    decreases lines.len(),
{
    if lines.len() == 0 {
        Seq::empty()
    } else {
        let before = beginning(lines.drop_last(), prefix);
        if begins(lines.last(), prefix) {
            before.push(lines.last())
        } else {
            before
        }
    }
}

/// The lines of a text that begin with the prefix, in order.
pub open spec fn found(s: Seq<char>, prefix: Seq<char>) -> Seq<Seq<char>> {
    beginning(cut(s).0, prefix)
}

/// The text ends with a line break, or is empty.
pub open spec fn closed(s: Seq<char>) -> bool {
    cut(s).1.len() == 0
}

/// A name and a service, with a value behind them.
pub open spec fn shown(name: Seq<char>, s: ServiceSnapshot, value: Seq<char>) -> Seq<char> {
    name + "{service=\""@ + escaped(s.name@) + "\",type=\""@ + s.service_type@ + "\"} "@ + value
}

/// The lines of the series with the name.
pub open spec fn series(out: Seq<char>, name: Seq<char>) -> Seq<Seq<char>> {
    found(out, name + seq!['{'])
}

proof fn lemma_cut_text(s: Seq<char>, t: Seq<char>)
    requires
        !t.contains('\n'),
    ensures
        cut(s + t) == (cut(s).0, cut(s).1 + t),
    decreases t.len(),
{
    reveal_with_fuel(cut, 2);
    if t.len() == 0 {
        assert(s + t =~= s);
        assert(cut(s).1 + t =~= cut(s).1);
    } else {
        let less = t.drop_last();
        assert forall|i: int| 0 <= i < less.len() implies less[i] != '\n' by {
            assert(t[i] != '\n');
        }
        assert(t[t.len() - 1] != '\n');
        lemma_cut_text(s, less);
        assert((s + t).drop_last() =~= s + less);
        assert((cut(s).1 + less).push(t.last()) =~= cut(s).1 + t);
    }
}

/// A line that is added to a text that is closed is found where it begins with the prefix.
proof fn lemma_found_line(s: Seq<char>, line: Seq<char>, prefix: Seq<char>)
    requires
        closed(s),
        !line.contains('\n'),
    ensures
        closed(s + line + seq!['\n']),
        found(s + line + seq!['\n'], prefix) == (if begins(line, prefix) {
            found(s, prefix).push(line)
        } else {
            found(s, prefix)
        }),
{
    reveal(cut);
    reveal(beginning);
    lemma_cut_text(s, line);
    let whole = s + line + seq!['\n'];
    assert(whole.drop_last() =~= s + line);
    assert(cut(s).1 + line =~= line);
    assert(cut(whole).0 == cut(s).0.push(line));
    assert(cut(whole).0.drop_last() =~= cut(s).0);
}

/// Where one name ends and where another does tells them apart.
proof fn lemma_begins_with_name(
    a: Seq<char>,
    x: char,
    b: Seq<char>,
    y: char,
    rest: Seq<char>,
)
    requires
        !a.contains(x),
        !a.contains(y),
        !b.contains(x),
        !b.contains(y),
    ensures
        begins(b + seq![y] + rest, a + seq![x]) <==> a == b && x == y,
{
    let line = b + seq![y] + rest;
    let prefix = a + seq![x];
    if a == b && x == y {
        assert(line.take(prefix.len() as int) =~= prefix);
    }
    if begins(line, prefix) {
        assert(line.take(prefix.len() as int)[a.len() as int] == x);
        assert(line[a.len() as int] == x);
        if a.len() < b.len() {
            assert(b[a.len() as int] == x);
        } else if a.len() > b.len() {
            assert(prefix[b.len() as int] == y);
            assert(a[b.len() as int] == y);
        } else {
            assert forall|i: int| 0 <= i < a.len() implies a[i] == b[i] by {
                assert(line.take(prefix.len() as int)[i] == prefix[i]);
            }
            assert(a =~= b);
        }
    }
}

/// A name of a series: it holds neither what ends it nor a line break, and is no comment.
pub open spec fn is_name(name: Seq<char>) -> bool {
    &&& name.len() > 0
    &&& name[0] == 'r'
    &&& !name.contains('{')
    &&& !name.contains(' ')
    &&& !name.contains('\n')
}

#[verifier::rlimit(60)]
proof fn lemma_names_of_metrics(m: Metric)
    ensures
        is_name(metric_name(m)),
{
    reveal_strlit("rathole_control_connected");
    reveal_strlit("rathole_connections_active");
    reveal_strlit("rathole_connections_total");
    reveal_strlit("rathole_data_channels_reused_total");
    reveal_strlit("rathole_bytes_in_total");
    reveal_strlit("rathole_bytes_out_total");
    reveal_strlit("rathole_wire_bytes_in_total");
    reveal_strlit("rathole_wire_bytes_out_total");
    reveal_strlit("rathole_datagrams_in_total");
    reveal_strlit("rathole_datagrams_out_total");
}

proof fn lemma_names_of_others()
    ensures
        is_name("rathole_uptime_seconds"@),
        is_name("rathole_compression_ratio"@),
{
    reveal_strlit("rathole_uptime_seconds");
    reveal_strlit("rathole_compression_ratio");
}

/// No two metrics have the same name.
#[verifier::rlimit(60)]
pub proof fn lemma_names_differ(m: Metric, q: Metric)
    ensures
        metric_name(m) == metric_name(q) ==> m == q,
        metric_name(m) != "rathole_uptime_seconds"@,
        metric_name(m) != "rathole_compression_ratio"@,
        "rathole_uptime_seconds"@ != "rathole_compression_ratio"@,
{
    reveal_strlit("rathole_control_connected");
    reveal_strlit("rathole_connections_active");
    reveal_strlit("rathole_connections_total");
    reveal_strlit("rathole_data_channels_reused_total");
    reveal_strlit("rathole_bytes_in_total");
    reveal_strlit("rathole_bytes_out_total");
    reveal_strlit("rathole_wire_bytes_in_total");
    reveal_strlit("rathole_wire_bytes_out_total");
    reveal_strlit("rathole_datagrams_in_total");
    reveal_strlit("rathole_datagrams_out_total");
    reveal_strlit("rathole_uptime_seconds");
    reveal_strlit("rathole_compression_ratio");
    let a = metric_name(m);
    let b = metric_name(q);
    assert(a.len() == b.len() && a[8] == b[8] && a[9] == b[9] && a[12] == b[12] && a[19] == b[19]
        ==> m == q);
    let u = "rathole_uptime_seconds"@;
    let c = "rathole_compression_ratio"@;
    assert(u[8] == 'u');
    assert(a[8] != 'u');
    assert(c[10] == 'm');
    assert(a[10] != 'm');
    assert(c[8] == 'c');
}

#[verifier::rlimit(60)]
proof fn lemma_help_of_metrics(m: Metric)
    ensures
        !metric_help(m).contains('\n'),
{
    reveal_strlit("1 if the service control channel is connected.");
    reveal_strlit("Currently forwarding TCP visitor sessions.");
    reveal_strlit("Accepted TCP visitor sessions.");
    reveal_strlit("TCP visitor sessions served over a reused data channel.");
    reveal_strlit("Visitor-facing bytes received (public to client).");
    reveal_strlit("Visitor-facing bytes sent (client to public).");
    reveal_strlit("Data-channel bytes received after optional compression.");
    reveal_strlit("Data-channel bytes sent after optional compression.");
    reveal_strlit("UDP datagrams received from visitors.");
    reveal_strlit("UDP datagrams sent to visitors.");
}

#[verifier::rlimit(60)]
proof fn lemma_help_of_others()
    ensures
        !"Seconds since the observation endpoint started."@.contains('\n'),
        !"Visitor bytes divided by data-channel bytes. Only set when compression is enabled."@.contains(
            '\n',
        ),
        !"gauge"@.contains('\n'),
        !"counter"@.contains('\n'),
{
    reveal_strlit("Seconds since the observation endpoint started.");
    reveal_strlit(
        "Visitor bytes divided by data-channel bytes. Only set when compression is enabled.",
    );
    reveal_strlit("gauge");
    reveal_strlit("counter");
}

proof fn lemma_one_line(a: Seq<char>, b: Seq<char>)
    requires
        !a.contains('\n'),
        !b.contains('\n'),
    ensures
        !(a + b).contains('\n'),
{
    let s = a + b;
    if s.contains('\n') {
        let i = choose|i: int| 0 <= i < s.len() && s[i] == '\n';
        if i < a.len() {
            assert(a[i] == '\n');
        } else {
            assert(b[i - a.len()] == '\n');
        }
    }
}

/// The two lines that introduce a metric.
pub open spec fn help_line(name: Seq<char>, help: Seq<char>) -> Seq<char> {
    "# HELP "@ + name + " "@ + help
}

pub open spec fn type_line(name: Seq<char>, kind: Seq<char>) -> Seq<char> {
    "# TYPE "@ + name + " "@ + kind
}

#[verifier::rlimit(60)]
proof fn lemma_found_header(
    s: Seq<char>,
    name: Seq<char>,
    help: Seq<char>,
    kind: Seq<char>,
    prefix: Seq<char>,
)
    requires
        closed(s),
        is_name(name),
        !help.contains('\n'),
        !kind.contains('\n'),
    ensures
        closed(s + metric_header(name, help, kind)),
        prefix.len() > 0 && prefix[0] == 'r' ==> found(s + metric_header(name, help, kind), prefix)
            == found(s, prefix),
        begins(prefix, "# TYPE "@) ==> found(s + metric_header(name, help, kind), prefix) == (
        if begins(type_line(name, kind), prefix) {
            found(s, prefix).push(type_line(name, kind))
        } else {
            found(s, prefix)
        }),
{
    reveal_strlit("# HELP ");
    reveal_strlit("# TYPE ");
    reveal_strlit(" ");
    reveal_strlit("\n# TYPE ");
    reveal_strlit("\n");
    let one = help_line(name, help);
    let two = type_line(name, kind);
    lemma_one_line("# HELP "@, name);
    lemma_one_line("# HELP "@ + name, " "@);
    lemma_one_line("# HELP "@ + name + " "@, help);
    lemma_one_line("# TYPE "@, name);
    lemma_one_line("# TYPE "@ + name, " "@);
    lemma_one_line("# TYPE "@ + name + " "@, kind);
    lemma_found_line(s, one, prefix);
    let middle = s + one + seq!['\n'];
    lemma_found_line(middle, two, prefix);
    assert("\n# TYPE "@ =~= seq!['\n'] + "# TYPE "@);
    assert(s + metric_header(name, help, kind) =~= middle + two + seq!['\n']);
    assert(one[0] == '#' && two[0] == '#');
    assert(one[2] == 'H');
    if begins(one, prefix) && prefix.len() > 0 {
        assert(one.take(prefix.len() as int)[0] == prefix[0]);
        if begins(prefix, "# TYPE "@) {
            assert(prefix.take(7)[2] == 'T');
            assert(one.take(prefix.len() as int)[2] == prefix[2]);
        }
    }
    if begins(two, prefix) && prefix.len() > 0 {
        assert(two.take(prefix.len() as int)[0] == prefix[0]);
    }
    if begins(prefix, "# TYPE "@) {
        assert(prefix.take(7)[0] == '#');
    }
}

/// The line of a series, without its line break.
pub open spec fn series_text(name: Seq<char>, s: ServiceSnapshotView, value: Seq<char>) -> Seq<
    char,
> {
    name + "{service=\""@ + escaped(s.name) + "\",type=\""@ + s.service_type + "\"} "@ + value
}

#[verifier::rlimit(60)]
proof fn lemma_found_series_line(
    s: Seq<char>,
    name: Seq<char>,
    v: ServiceSnapshotView,
    value: Seq<char>,
    wanted: Seq<char>,
)
    requires
        closed(s),
        is_name(name),
        is_name(wanted),
        !v.service_type.contains('\n'),
        !value.contains('\n'),
    ensures
        closed(s + series_line(name, v, value)),
        found(s + series_line(name, v, value), wanted + seq!['{']) == (if name == wanted {
            found(s, wanted + seq!['{']).push(series_text(name, v, value))
        } else {
            found(s, wanted + seq!['{'])
        }),
        found(s + series_line(name, v, value), type_line(wanted, Seq::empty())) == found(
            s,
            type_line(wanted, Seq::empty()),
        ),
{
    reveal_strlit("{service=\"");
    reveal_strlit("\",type=\"");
    reveal_strlit("\"} ");
    reveal_strlit("\n");
    reveal_strlit("# TYPE ");
    let label = escaped(v.name);
    law_escaping_is_reversible(v.name);
    let a = "{service=\""@;
    let b = "\",type=\""@;
    let c = "\"} "@;
    let line = series_text(name, v, value);
    lemma_one_line(name, a);
    lemma_one_line(name + a, label);
    lemma_one_line(name + a + label, b);
    lemma_one_line(name + a + label + b, v.service_type);
    lemma_one_line(name + a + label + b + v.service_type, c);
    lemma_one_line(name + a + label + b + v.service_type + c, value);
    let rest = a.skip(1) + label + b + v.service_type + c + value;
    assert(line =~= name + seq!['{'] + rest);
    lemma_begins_with_name(wanted, '{', name, '{', rest);
    lemma_found_line(s, line, wanted + seq!['{']);
    let other = type_line(wanted, Seq::empty());
    lemma_found_line(s, line, other);
    assert(other[0] == '#');
    assert(line[0] == 'r');
    if begins(line, other) {
        assert(line.take(other.len() as int)[0] == '#');
    }
    assert(s + series_line(name, v, value) =~= s + line + seq!['\n']);
}

proof fn lemma_decimal_is_one_line(n: nat)
    ensures
        !text::decimal(n).contains('\n'),
{
    crate::helper::law_decimal_text_is_read_back(n);
    let s = text::decimal(n);
    if s.contains('\n') {
        let i = choose|i: int| 0 <= i < s.len() && s[i] == '\n';
        assert('0' <= s[i] <= '9');
    }
}

/// The types of the services fit in a line.
pub open spec fn plain_types(services: Seq<ServiceSnapshotView>) -> bool {
    forall|i: int| 0 <= i < services.len() ==> !(#[trigger] services[i]).service_type.contains('\n')
}

/// The lines of a metric, without their line breaks.
pub open spec fn series_texts(m: Metric, services: Seq<ServiceSnapshotView>) -> Seq<Seq<char>> {
    Seq::new(
        services.len(),
        |i: int|
            series_text(
                metric_name(m),
                services[i],
                text::decimal(metric_value(m, services[i]) as nat),
            ),
    )
}

proof fn lemma_found_series(
    s: Seq<char>,
    m: Metric,
    services: Seq<ServiceSnapshotView>,
    wanted: Seq<char>,
)
    requires
        closed(s),
        is_name(wanted),
        plain_types(services),
    ensures
        closed(s + series_lines(m, services)),
        found(s + series_lines(m, services), wanted + seq!['{']) == (if metric_name(m) == wanted {
            found(s, wanted + seq!['{']) + series_texts(m, services)
        } else {
            found(s, wanted + seq!['{'])
        }),
        found(s + series_lines(m, services), type_line(wanted, Seq::empty())) == found(
            s,
            type_line(wanted, Seq::empty()),
        ),
    decreases services.len(),
{
    let prefix = wanted + seq!['{'];
    if services.len() == 0 {
        assert(s + series_lines(m, services) =~= s);
        assert(found(s, prefix) + series_texts(m, services) =~= found(s, prefix));
    } else {
        let front = services.drop_last();
        let v = services.last();
        let value = text::decimal(metric_value(m, v) as nat);
        assert forall|i: int| 0 <= i < front.len() implies !(
        #[trigger] front[i]).service_type.contains('\n') by {
            assert(services[i] == front[i]);
        }
        assert(services[services.len() - 1] == v);
        lemma_found_series(s, m, front, wanted);
        lemma_names_of_metrics(m);
        lemma_decimal_is_one_line(metric_value(m, v) as nat);
        let before = s + series_lines(m, front);
        lemma_found_series_line(before, metric_name(m), v, value, wanted);
        assert(s + series_lines(m, services) =~= before + series_line(metric_name(m), v, value));
        assert(series_texts(m, services) =~= series_texts(m, front).push(
            series_text(metric_name(m), v, value),
        ));
        assert(found(s, prefix) + series_texts(m, services) =~= (found(s, prefix) + series_texts(
            m,
            front,
        )).push(series_text(metric_name(m), v, value)));
    }
}

#[verifier::rlimit(60)]
proof fn lemma_found_block(
    s: Seq<char>,
    m: Metric,
    services: Seq<ServiceSnapshotView>,
    wanted: Seq<char>,
)
    requires
        closed(s),
        is_name(wanted),
        plain_types(services),
    ensures
        closed(s + metric_block(m, services)),
        found(s + metric_block(m, services), wanted + seq!['{']) == (if metric_name(m) == wanted {
            found(s, wanted + seq!['{']) + series_texts(m, services)
        } else {
            found(s, wanted + seq!['{'])
        }),
        found(s + metric_block(m, services), type_line(wanted, Seq::empty())) == (if metric_name(m)
            == wanted {
            found(s, type_line(wanted, Seq::empty())).push(type_line(wanted, metric_kind(m)))
        } else {
            found(s, type_line(wanted, Seq::empty()))
        }),
{
    lemma_names_of_metrics(m);
    lemma_help_of_metrics(m);
    lemma_help_of_others();
    let name = metric_name(m);
    let header = metric_header(name, metric_help(m), metric_kind(m));
    lemma_found_header(s, name, metric_help(m), metric_kind(m), wanted + seq!['{']);
    lemma_type_line(s, name, metric_help(m), metric_kind(m), wanted);
    lemma_found_series(s + header, m, services, wanted);
    assert(s + metric_block(m, services) =~= s + header + series_lines(m, services));
}

#[verifier::rlimit(60)]
proof fn lemma_type_line(
    s: Seq<char>,
    name: Seq<char>,
    help: Seq<char>,
    kind: Seq<char>,
    wanted: Seq<char>,
)
    requires
        closed(s),
        is_name(name),
        is_name(wanted),
        !help.contains('\n'),
        !kind.contains('\n'),
    ensures
        found(s + metric_header(name, help, kind), type_line(wanted, Seq::empty())) == (if name
            == wanted {
            found(s, type_line(wanted, Seq::empty())).push(type_line(wanted, kind))
        } else {
            found(s, type_line(wanted, Seq::empty()))
        }),
{
    reveal_strlit("# TYPE ");
    reveal_strlit(" ");
    let prefix = type_line(wanted, Seq::empty());
    let line = type_line(name, kind);
    assert(prefix.take(7) =~= "# TYPE "@);
    lemma_found_header(s, name, help, kind, prefix);
    lemma_begins_with_name(wanted, ' ', name, ' ', kind);
    let tail = name + seq![' '] + kind;
    let key = wanted + seq![' '];
    assert(line =~= "# TYPE "@ + tail);
    assert(prefix =~= "# TYPE "@ + key);
    if begins(line, prefix) {
        assert(tail.take(key.len() as int) =~= line.take(prefix.len() as int).skip(7));
        assert(prefix.skip(7) =~= key);
    }
    if begins(tail, key) {
        assert(line.take(prefix.len() as int) =~= "# TYPE "@ + tail.take(key.len() as int));
    }
}

/// The lines of the compression ratio, without their line breaks: one for each service that has
/// a ratio, in order.
pub open spec fn ratio_texts(services: Seq<ServiceSnapshotView>, ratios: Seq<Seq<char>>) -> Seq<
    Seq<char>,
>
    decreases services.len(),
{
    if services.len() == 0 {
        Seq::empty()
    } else {
        let before = ratio_texts(services.drop_last(), ratios);
        if services.last().compression_ratio is Some {
            before.push(
                series_text(
                    "rathole_compression_ratio"@,
                    services.last(),
                    ratios[services.len() - 1],
                ),
            )
        } else {
            before
        }
    }
}

proof fn lemma_found_ratios(
    s: Seq<char>,
    services: Seq<ServiceSnapshotView>,
    ratios: Seq<Seq<char>>,
    wanted: Seq<char>,
)
    requires
        closed(s),
        is_name(wanted),
        plain_types(services),
        services.len() <= ratios.len(),
        forall|i: int| 0 <= i < ratios.len() ==> !(#[trigger] ratios[i]).contains('\n'),
    ensures
        closed(s + ratio_lines(services, ratios)),
        found(s + ratio_lines(services, ratios), wanted + seq!['{']) == (if wanted
            == "rathole_compression_ratio"@ {
            found(s, wanted + seq!['{']) + ratio_texts(services, ratios)
        } else {
            found(s, wanted + seq!['{'])
        }),
        found(s + ratio_lines(services, ratios), type_line(wanted, Seq::empty())) == found(
            s,
            type_line(wanted, Seq::empty()),
        ),
    decreases services.len(),
{
    let prefix = wanted + seq!['{'];
    if services.len() == 0 {
        assert(s + ratio_lines(services, ratios) =~= s);
        assert(found(s, prefix) + ratio_texts(services, ratios) =~= found(s, prefix));
    } else {
        let front = services.drop_last();
        let v = services.last();
        let name = "rathole_compression_ratio"@;
        let value = ratios[services.len() - 1];
        assert forall|i: int| 0 <= i < front.len() implies !(
        #[trigger] front[i]).service_type.contains('\n') by {
            assert(services[i] == front[i]);
        }
        assert(services[services.len() - 1] == v);
        lemma_found_ratios(s, front, ratios, wanted);
        lemma_names_of_others();
        let before = s + ratio_lines(front, ratios);
        if v.compression_ratio is Some {
            lemma_found_series_line(before, name, v, value, wanted);
            assert(s + ratio_lines(services, ratios) =~= before + series_line(name, v, value));
            assert(found(s, prefix) + ratio_texts(services, ratios) =~= (found(s, prefix)
                + ratio_texts(front, ratios)).push(series_text(name, v, value)));
        }
    }
}

/// The lines before the first metric of the services.
pub open spec fn uptime_lines(uptime_secs: u64) -> Seq<char> {
    metric_header(
        "rathole_uptime_seconds"@,
        "Seconds since the observation endpoint started."@,
        "gauge"@,
    ) + "rathole_uptime_seconds "@ + text::decimal(uptime_secs as nat) + "\n"@
}

#[verifier::rlimit(60)]
proof fn lemma_found_uptime(uptime_secs: u64, wanted: Seq<char>)
    requires
        is_name(wanted),
    ensures
        closed(uptime_lines(uptime_secs)),
        found(uptime_lines(uptime_secs), wanted + seq!['{']) == Seq::<Seq<char>>::empty(),
        found(uptime_lines(uptime_secs), wanted + seq![' ']) == (if wanted
            == "rathole_uptime_seconds"@ {
            seq![wanted + seq![' '] + text::decimal(uptime_secs as nat)]
        } else {
            Seq::empty()
        }),
        found(uptime_lines(uptime_secs), type_line(wanted, Seq::empty())) == (if wanted
            == "rathole_uptime_seconds"@ {
            seq![type_line(wanted, "gauge"@)]
        } else {
            Seq::empty()
        }),
{
    let name = "rathole_uptime_seconds"@;
    let help = "Seconds since the observation endpoint started."@;
    let digits = text::decimal(uptime_secs as nat);
    let none = Seq::<char>::empty();
    let header = metric_header(name, help, "gauge"@);
    let other = type_line(wanted, none);
    reveal(cut);
    reveal(beginning);
    assert(closed(none));
    lemma_names_of_others();
    lemma_help_of_others();
    assert(none + header =~= header);
    lemma_found_header(none, name, help, "gauge"@, wanted + seq!['{']);
    lemma_found_header(none, name, help, "gauge"@, wanted + seq![' ']);
    lemma_type_line(none, name, help, "gauge"@, wanted);
    reveal_strlit("rathole_uptime_seconds ");
    reveal_strlit("rathole_uptime_seconds");
    reveal_strlit("\n");
    reveal_strlit("# TYPE ");
    lemma_decimal_is_one_line(uptime_secs as nat);
    assert("rathole_uptime_seconds "@ =~= name + seq![' ']);
    let line = name + seq![' '] + digits;
    lemma_one_line(name, seq![' ']);
    lemma_one_line(name + seq![' '], digits);
    lemma_found_line(header, line, wanted + seq!['{']);
    lemma_found_line(header, line, wanted + seq![' ']);
    lemma_found_line(header, line, other);
    lemma_begins_with_name(wanted, '{', name, ' ', digits);
    lemma_begins_with_name(wanted, ' ', name, ' ', digits);
    assert(other[0] == '#');
    assert(line[0] == 'r');
    if begins(line, other) {
        assert(line.take(other.len() as int)[0] == '#');
    }
    assert(uptime_lines(uptime_secs) =~= header + line + seq!['\n']);
}

/// The blocks of metrics, one after another, behind a text.
pub open spec fn with_blocks(
    s: Seq<char>,
    metrics: Seq<Metric>,
    services: Seq<ServiceSnapshotView>,
) -> Seq<char>
    decreases metrics.len(),
{
    if metrics.len() == 0 {
        s
    } else {
        with_blocks(s, metrics.drop_last(), services) + metric_block(metrics.last(), services)
    }
}

/// Behind blocks of other metrics nothing more is found under a name.
proof fn lemma_found_elsewhere(
    s: Seq<char>,
    metrics: Seq<Metric>,
    services: Seq<ServiceSnapshotView>,
    wanted: Seq<char>,
)
    requires
        closed(s),
        is_name(wanted),
        plain_types(services),
        forall|i: int| 0 <= i < metrics.len() ==> metric_name(#[trigger] metrics[i]) != wanted,
    ensures
        closed(with_blocks(s, metrics, services)),
        found(with_blocks(s, metrics, services), wanted + seq!['{']) == found(
            s,
            wanted + seq!['{'],
        ),
        found(with_blocks(s, metrics, services), type_line(wanted, Seq::empty())) == found(
            s,
            type_line(wanted, Seq::empty()),
        ),
    decreases metrics.len(),
{
    if metrics.len() > 0 {
        let front = metrics.drop_last();
        assert forall|i: int| 0 <= i < front.len() implies metric_name(#[trigger] front[i])
            != wanted by {
            assert(metrics[i] == front[i]);
        }
        assert(metric_name(metrics[metrics.len() - 1]) != wanted);
        lemma_found_elsewhere(s, front, services, wanted);
        lemma_found_block(
            with_blocks(s, front, services),
            metrics.last(),
            services,
            wanted,
        );
    }
}

/// Behind blocks of which one is that of the metric, its lines are found under its name.
#[verifier::rlimit(60)]
proof fn lemma_found_among(
    s: Seq<char>,
    metrics: Seq<Metric>,
    k: int,
    services: Seq<ServiceSnapshotView>,
)
    requires
        closed(s),
        plain_types(services),
        0 <= k < metrics.len(),
        forall|i: int| 0 <= i < metrics.len() && i != k ==> #[trigger] metrics[i] != metrics[k],
    ensures
        ({
            let wanted = metric_name(metrics[k]);
            let out = with_blocks(s, metrics, services);
            &&& closed(out)
            &&& found(out, wanted + seq!['{']) == found(s, wanted + seq!['{']) + series_texts(
                metrics[k],
                services,
            )
            &&& found(out, type_line(wanted, Seq::empty())) == found(
                s,
                type_line(wanted, Seq::empty()),
            ).push(type_line(wanted, metric_kind(metrics[k])))
        }),
    decreases metrics.len(),
{
    let m = metrics[k];
    let wanted = metric_name(m);
    let front = metrics.drop_last();
    lemma_names_of_metrics(m);
    assert(metrics[metrics.len() - 1] == metrics.last());
    lemma_names_differ(metrics.last(), m);
    if k == metrics.len() - 1 {
        assert forall|i: int| 0 <= i < front.len() implies metric_name(#[trigger] front[i])
            != wanted by {
            assert(metrics[i] == front[i]);
            lemma_names_differ(front[i], m);
        }
        lemma_found_elsewhere(s, front, services, wanted);
    } else {
        assert forall|i: int| 0 <= i < front.len() && i != k implies #[trigger] front[i]
            != front[k] by {
            assert(metrics[i] == front[i]);
        }
        lemma_found_among(s, front, k, services);
    }
    lemma_found_block(with_blocks(s, front, services), metrics.last(), services, wanted);
}

/// The metrics in the order in which the text shows them.
#[verifier::opaque]
pub open spec fn all_metrics() -> Seq<Metric> {
    seq![
        Metric::ControlConnected,
        Metric::ConnectionsActive,
        Metric::ConnectionsTotal,
        Metric::DataChannelsReused,
        Metric::BytesIn,
        Metric::BytesOut,
        Metric::WireBytesIn,
        Metric::WireBytesOut,
        Metric::DatagramsIn,
        Metric::DatagramsOut,
    ]
}

/// The text is made of the uptime, the blocks of all metrics, and the ratios.
#[verifier::rlimit(60)]
proof fn lemma_text_is_made_of_blocks(
    uptime_secs: u64,
    services: Seq<ServiceSnapshotView>,
    ratios: Seq<Seq<char>>,
)
    ensures
        prometheus(uptime_secs, services, ratios) == with_blocks(
            uptime_lines(uptime_secs),
            all_metrics(),
            services,
        ) + metric_header(
            "rathole_compression_ratio"@,
            "Visitor bytes divided by data-channel bytes. Only set when compression is enabled."@,
            "gauge"@,
        ) + ratio_lines(services, ratios),
{
    reveal(all_metrics);
    let s = uptime_lines(uptime_secs);
    let all = all_metrics();
    assert forall|n: int| 0 < n <= 10 implies #[trigger] with_blocks(s, all.take(n), services)
        == with_blocks(s, all.take(n - 1), services) + metric_block(all[n - 1], services) by {
        assert(all.take(n).drop_last() =~= all.take(n - 1));
    }
    assert(all.take(10) =~= all);
    assert(all.take(0).len() == 0);
    assert(with_blocks(s, all.take(0), services) == s);
    assert(with_blocks(s, all.take(1), services) == with_blocks(s, all.take(0), services) + metric_block(
        Metric::ControlConnected,
        services,
    ));
    assert(with_blocks(s, all.take(2), services) == with_blocks(s, all.take(1), services) + metric_block(
        Metric::ConnectionsActive,
        services,
    ));
    assert(with_blocks(s, all.take(3), services) == with_blocks(s, all.take(2), services) + metric_block(
        Metric::ConnectionsTotal,
        services,
    ));
    assert(with_blocks(s, all.take(4), services) == with_blocks(s, all.take(3), services) + metric_block(
        Metric::DataChannelsReused,
        services,
    ));
    assert(with_blocks(s, all.take(5), services) == with_blocks(s, all.take(4), services) + metric_block(
        Metric::BytesIn,
        services,
    ));
    assert(with_blocks(s, all.take(6), services) == with_blocks(s, all.take(5), services) + metric_block(
        Metric::BytesOut,
        services,
    ));
    assert(with_blocks(s, all.take(7), services) == with_blocks(s, all.take(6), services) + metric_block(
        Metric::WireBytesIn,
        services,
    ));
    assert(with_blocks(s, all.take(8), services) == with_blocks(s, all.take(7), services) + metric_block(
        Metric::WireBytesOut,
        services,
    ));
    assert(with_blocks(s, all.take(9), services) == with_blocks(s, all.take(8), services) + metric_block(
        Metric::DatagramsIn,
        services,
    ));
    assert(with_blocks(s, all.take(10), services) == with_blocks(s, all.take(9), services) + metric_block(
        Metric::DatagramsOut,
        services,
    ));
}

proof fn lemma_each_metric_once(k: int)
    requires
        0 <= k < 10,
    ensures
        forall|i: int|
            0 <= i < all_metrics().len() && i != k ==> #[trigger] all_metrics()[i]
                != all_metrics()[k],
        all_metrics().len() == 10,
{
    reveal(all_metrics);
}

/// The ratios behind a text add nothing under another name.
proof fn lemma_found_before_ratios(
    s: Seq<char>,
    services: Seq<ServiceSnapshotView>,
    ratios: Seq<Seq<char>>,
    wanted: Seq<char>,
)
    requires
        closed(s),
        is_name(wanted),
        wanted != "rathole_compression_ratio"@,
        plain_types(services),
        services.len() <= ratios.len(),
        forall|i: int| 0 <= i < ratios.len() ==> !(#[trigger] ratios[i]).contains('\n'),
    ensures
        ({
            let out = s + metric_header(
                "rathole_compression_ratio"@,
                "Visitor bytes divided by data-channel bytes. Only set when compression is enabled."@,
                "gauge"@,
            ) + ratio_lines(services, ratios);
            &&& found(out, wanted + seq!['{']) == found(s, wanted + seq!['{'])
            &&& found(out, type_line(wanted, Seq::empty())) == found(
                s,
                type_line(wanted, Seq::empty()),
            )
        }),
{
    let name = "rathole_compression_ratio"@;
    let help =
        "Visitor bytes divided by data-channel bytes. Only set when compression is enabled."@;
    lemma_names_of_others();
    lemma_help_of_others();
    lemma_found_header(s, name, help, "gauge"@, wanted + seq!['{']);
    lemma_type_line(s, name, help, "gauge"@, wanted);
    lemma_found_ratios(s + metric_header(name, help, "gauge"@), services, ratios, wanted);
}

/// The lines of one of the metrics are all that is found under its name, where nothing was
/// found before.
proof fn lemma_found_once(
    s: Seq<char>,
    metrics: Seq<Metric>,
    k: int,
    services: Seq<ServiceSnapshotView>,
    wanted: Seq<char>,
)
    requires
        closed(s),
        plain_types(services),
        0 <= k < metrics.len(),
        forall|i: int| 0 <= i < metrics.len() && i != k ==> #[trigger] metrics[i] != metrics[k],
        wanted == metric_name(metrics[k]),
        found(s, wanted + seq!['{']) == Seq::<Seq<char>>::empty(),
        found(s, type_line(wanted, Seq::empty())) == Seq::<Seq<char>>::empty(),
    ensures
        closed(with_blocks(s, metrics, services)),
        found(with_blocks(s, metrics, services), wanted + seq!['{']) == series_texts(
            metrics[k],
            services,
        ),
        found(with_blocks(s, metrics, services), type_line(wanted, Seq::empty())) == seq![
            type_line(wanted, metric_kind(metrics[k])),
        ],
{
    lemma_found_among(s, metrics, k, services);
    let none = Seq::<Seq<char>>::empty();
    assert(none + series_texts(metrics[k], services) =~= series_texts(metrics[k], services));
    assert(none.push(type_line(wanted, metric_kind(metrics[k]))) =~= seq![
        type_line(wanted, metric_kind(metrics[k])),
    ]);
}

/// Everything that the text says under the name of a metric.
#[verifier::rlimit(60)]
proof fn lemma_metric_in_text(
    uptime_secs: u64,
    services: Seq<ServiceSnapshotView>,
    ratios: Seq<Seq<char>>,
    k: int,
    wanted: Seq<char>,
)
    requires
        0 <= k < 10,
        wanted == metric_name(all_metrics()[k]),
        plain_types(services),
        services.len() <= ratios.len(),
        forall|i: int| 0 <= i < ratios.len() ==> !(#[trigger] ratios[i]).contains('\n'),
    ensures
        found(prometheus(uptime_secs, services, ratios), wanted + seq!['{']) == series_texts(
            all_metrics()[k],
            services,
        ),
        found(prometheus(uptime_secs, services, ratios), type_line(wanted, Seq::empty())) == seq![
            type_line(wanted, metric_kind(all_metrics()[k])),
        ],
{
    lemma_a_metric_is_no_other(all_metrics()[k]);
    lemma_text_is_made_of_blocks(uptime_secs, services, ratios);
    lemma_found_uptime(uptime_secs, wanted);
    lemma_each_metric_once(k);
    let s = uptime_lines(uptime_secs);
    lemma_found_once(s, all_metrics(), k, services, wanted);
    lemma_found_before_ratios(
        with_blocks(s, all_metrics(), services),
        services,
        ratios,
        wanted,
    );
}

proof fn lemma_a_metric_is_no_other(m: Metric)
    ensures
        is_name(metric_name(m)),
        metric_name(m) != "rathole_uptime_seconds"@,
        metric_name(m) != "rathole_compression_ratio"@,
{
    lemma_names_of_metrics(m);
    lemma_names_differ(m, m);
}

/// Everything that the text says under the name of the ratio.
#[verifier::rlimit(60)]
proof fn lemma_ratio_in_text(
    uptime_secs: u64,
    services: Seq<ServiceSnapshotView>,
    ratios: Seq<Seq<char>>,
)
    requires
        plain_types(services),
        services.len() <= ratios.len(),
        forall|i: int| 0 <= i < ratios.len() ==> !(#[trigger] ratios[i]).contains('\n'),
    ensures
        ({
            let out = prometheus(uptime_secs, services, ratios);
            let wanted = "rathole_compression_ratio"@;
            &&& found(out, wanted + seq!['{']) == ratio_texts(services, ratios)
            &&& found(out, type_line(wanted, Seq::empty())) == seq![type_line(wanted, "gauge"@)]
        }),
{
    let all = all_metrics();
    let wanted = "rathole_compression_ratio"@;
    let help =
        "Visitor bytes divided by data-channel bytes. Only set when compression is enabled."@;
    lemma_names_of_others();
    lemma_names_differ(Metric::BytesIn, Metric::BytesIn);
    lemma_help_of_others();
    lemma_text_is_made_of_blocks(uptime_secs, services, ratios);
    lemma_found_uptime(uptime_secs, wanted);
    let s = uptime_lines(uptime_secs);
    assert forall|i: int| 0 <= i < all.len() implies metric_name(#[trigger] all[i]) != wanted by {
        lemma_names_differ(all[i], all[i]);
    }
    lemma_found_elsewhere(s, all, services, wanted);
    let s1 = with_blocks(s, all, services);
    lemma_found_header(s1, wanted, help, "gauge"@, wanted + seq!['{']);
    lemma_type_line(s1, wanted, help, "gauge"@, wanted);
    lemma_found_ratios(s1 + metric_header(wanted, help, "gauge"@), services, ratios, wanted);
    let none = Seq::<Seq<char>>::empty();
    assert(none + ratio_texts(services, ratios) =~= ratio_texts(services, ratios));
    assert(none.push(type_line(wanted, "gauge"@)) =~= seq![type_line(wanted, "gauge"@)]);
}

/// The snapshot and the ratios fit in lines.
pub open spec fn fits_in_lines(snapshot: &StatsSnapshot, ratios: &Vec<String>) -> bool {
    &&& ratios@.len() == snapshot.services@.len()
    &&& forall|i: int|
        0 <= i < ratios@.len() ==> !(#[trigger] ratios@[i])@.contains('\n')
    &&& forall|i: int|
        0 <= i < snapshot.services@.len() ==> !(
        #[trigger] snapshot.services@[i]).service_type@.contains('\n')
}

proof fn lemma_fits_in_lines(snapshot: &StatsSnapshot, ratios: &Vec<String>)
    requires
        fits_in_lines(snapshot, ratios),
    ensures
        ({
            let views = observe::snapshot_views(snapshot.services@);
            let texts = crate::config::texts(ratios@);
            &&& views.len() == snapshot.services@.len()
            &&& texts.len() == views.len()
            &&& plain_types(views)
            &&& forall|i: int| 0 <= i < texts.len() ==> !(#[trigger] texts[i]).contains('\n')
            &&& forall|i: int|
                0 <= i < views.len() ==> (#[trigger] views[i]) == snapshot.services@[i]@
        }),
{
    let texts = crate::config::texts(ratios@);
    assert forall|i: int| 0 <= i < texts.len() implies !(#[trigger] texts[i]).contains('\n') by {
        assert(texts[i] == ratios@[i]@);
    }
}

/// The text is that of the snapshot.
#[verifier::opaque]
spec fn is_text(snapshot: &StatsSnapshot, ratios: &Vec<String>, out: Seq<char>) -> bool {
    out == prometheus(
        snapshot.uptime_secs,
        observe::snapshot_views(snapshot.services@),
        crate::config::texts(ratios@),
    )
}

proof fn lemma_is_text(snapshot: &StatsSnapshot, ratios: &Vec<String>, r: String)
    requires
        call_ensures(prometheus_text, (snapshot, ratios), r),
    ensures
        is_text(snapshot, ratios, r@),
{
    reveal(is_text);
}

proof fn lemma_order_of_metrics()
    ensures
        all_metrics()[0] == Metric::ControlConnected,
        all_metrics()[1] == Metric::ConnectionsActive,
        all_metrics()[2] == Metric::ConnectionsTotal,
        all_metrics()[3] == Metric::DataChannelsReused,
        all_metrics()[4] == Metric::BytesIn,
        all_metrics()[5] == Metric::BytesOut,
        all_metrics()[6] == Metric::WireBytesIn,
        all_metrics()[7] == Metric::WireBytesOut,
        all_metrics()[8] == Metric::DatagramsIn,
        all_metrics()[9] == Metric::DatagramsOut,
{
    reveal(all_metrics);
}

#[verifier::rlimit(60)]
proof fn lemma_metric_in_snapshot(
    snapshot: &StatsSnapshot,
    ratios: &Vec<String>,
    out: Seq<char>,
    k: int,
    m: Metric,
)
    requires
        fits_in_lines(snapshot, ratios),
        0 <= k < 10,
        all_metrics()[k] == m,
        is_text(snapshot, ratios, out),
    ensures
        series(out, metric_name(m)).len() == snapshot.services@.len(),
        forall|i: int|
            #![trigger snapshot.services@[i]]
            0 <= i < snapshot.services@.len() ==> series(out, metric_name(m))[i] == shown(
                metric_name(m),
                snapshot.services@[i],
                text::decimal(metric_value(m, snapshot.services@[i]@) as nat),
            ),
        found(out, type_line(metric_name(m), Seq::empty())) == seq![
            type_line(metric_name(m), metric_kind(m)),
        ],
{
    let views = observe::snapshot_views(snapshot.services@);
    let texts = crate::config::texts(ratios@);
    reveal(is_text);
    lemma_fits_in_lines(snapshot, ratios);
    lemma_metric_in_text(snapshot.uptime_secs, views, texts, k, metric_name(m));
    assert forall|i: int|
        #![trigger snapshot.services@[i]]
        0 <= i < snapshot.services@.len() implies series(out, metric_name(m))[i] == shown(
        metric_name(m),
        snapshot.services@[i],
        text::decimal(metric_value(m, snapshot.services@[i]@) as nat),
    ) by {
        assert(views[i] == snapshot.services@[i]@);
    }
}

proof fn lemma_shows_control_connected(
    snapshot: &StatsSnapshot,
    ratios: &Vec<String>,
    out: Seq<char>,
)
    requires
        fits_in_lines(snapshot, ratios),
        is_text(snapshot, ratios, out),
    ensures
        series(out, "rathole_control_connected"@).len() == snapshot.services@.len(),
        forall|i: int|
            #![trigger snapshot.services@[i]]
            0 <= i < snapshot.services@.len() ==> ({
                let s = snapshot.services@[i];
                series(out, "rathole_control_connected"@)[i] == shown(
                    "rathole_control_connected"@,
                    s,
                    text::decimal(if s.control_connected {
                        1nat
                    } else {
                        0nat
                    }),
                )
            }),
        found(out, type_line("rathole_control_connected"@, Seq::empty())) == seq![type_line("rathole_control_connected"@, "gauge"@)],
{
    lemma_order_of_metrics();
    lemma_metric_in_snapshot(snapshot, ratios, out, 0, Metric::ControlConnected);
}

proof fn lemma_shows_connections_active(
    snapshot: &StatsSnapshot,
    ratios: &Vec<String>,
    out: Seq<char>,
)
    requires
        fits_in_lines(snapshot, ratios),
        is_text(snapshot, ratios, out),
    ensures
        series(out, "rathole_connections_active"@).len() == snapshot.services@.len(),
        forall|i: int|
            #![trigger snapshot.services@[i]]
            0 <= i < snapshot.services@.len() ==> ({
                let s = snapshot.services@[i];
                series(out, "rathole_connections_active"@)[i] == shown(
                    "rathole_connections_active"@,
                    s,
                    text::decimal(s.connections_active as nat),
                )
            }),
        found(out, type_line("rathole_connections_active"@, Seq::empty())) == seq![type_line("rathole_connections_active"@, "gauge"@)],
{
    lemma_order_of_metrics();
    lemma_metric_in_snapshot(snapshot, ratios, out, 1, Metric::ConnectionsActive);
}

proof fn lemma_shows_connections_total(
    snapshot: &StatsSnapshot,
    ratios: &Vec<String>,
    out: Seq<char>,
)
    requires
        fits_in_lines(snapshot, ratios),
        is_text(snapshot, ratios, out),
    ensures
        series(out, "rathole_connections_total"@).len() == snapshot.services@.len(),
        forall|i: int|
            #![trigger snapshot.services@[i]]
            0 <= i < snapshot.services@.len() ==> ({
                let s = snapshot.services@[i];
                series(out, "rathole_connections_total"@)[i] == shown(
                    "rathole_connections_total"@,
                    s,
                    text::decimal(s.connections_total as nat),
                )
            }),
        found(out, type_line("rathole_connections_total"@, Seq::empty())) == seq![type_line("rathole_connections_total"@, "counter"@)],
{
    lemma_order_of_metrics();
    lemma_metric_in_snapshot(snapshot, ratios, out, 2, Metric::ConnectionsTotal);
}

proof fn lemma_shows_data_channels_reused_total(
    snapshot: &StatsSnapshot,
    ratios: &Vec<String>,
    out: Seq<char>,
)
    requires
        fits_in_lines(snapshot, ratios),
        is_text(snapshot, ratios, out),
    ensures
        series(out, "rathole_data_channels_reused_total"@).len() == snapshot.services@.len(),
        forall|i: int|
            #![trigger snapshot.services@[i]]
            0 <= i < snapshot.services@.len() ==> ({
                let s = snapshot.services@[i];
                series(out, "rathole_data_channels_reused_total"@)[i] == shown(
                    "rathole_data_channels_reused_total"@,
                    s,
                    text::decimal(s.data_channels_reused as nat),
                )
            }),
        found(out, type_line("rathole_data_channels_reused_total"@, Seq::empty())) == seq![type_line("rathole_data_channels_reused_total"@, "counter"@)],
{
    lemma_order_of_metrics();
    lemma_metric_in_snapshot(snapshot, ratios, out, 3, Metric::DataChannelsReused);
}

proof fn lemma_shows_bytes_in_total(
    snapshot: &StatsSnapshot,
    ratios: &Vec<String>,
    out: Seq<char>,
)
    requires
        fits_in_lines(snapshot, ratios),
        is_text(snapshot, ratios, out),
    ensures
        series(out, "rathole_bytes_in_total"@).len() == snapshot.services@.len(),
        forall|i: int|
            #![trigger snapshot.services@[i]]
            0 <= i < snapshot.services@.len() ==> ({
                let s = snapshot.services@[i];
                series(out, "rathole_bytes_in_total"@)[i] == shown(
                    "rathole_bytes_in_total"@,
                    s,
                    text::decimal(s.bytes_in as nat),
                )
            }),
        found(out, type_line("rathole_bytes_in_total"@, Seq::empty())) == seq![type_line("rathole_bytes_in_total"@, "counter"@)],
{
    lemma_order_of_metrics();
    lemma_metric_in_snapshot(snapshot, ratios, out, 4, Metric::BytesIn);
}

proof fn lemma_shows_bytes_out_total(
    snapshot: &StatsSnapshot,
    ratios: &Vec<String>,
    out: Seq<char>,
)
    requires
        fits_in_lines(snapshot, ratios),
        is_text(snapshot, ratios, out),
    ensures
        series(out, "rathole_bytes_out_total"@).len() == snapshot.services@.len(),
        forall|i: int|
            #![trigger snapshot.services@[i]]
            0 <= i < snapshot.services@.len() ==> ({
                let s = snapshot.services@[i];
                series(out, "rathole_bytes_out_total"@)[i] == shown(
                    "rathole_bytes_out_total"@,
                    s,
                    text::decimal(s.bytes_out as nat),
                )
            }),
        found(out, type_line("rathole_bytes_out_total"@, Seq::empty())) == seq![type_line("rathole_bytes_out_total"@, "counter"@)],
{
    lemma_order_of_metrics();
    lemma_metric_in_snapshot(snapshot, ratios, out, 5, Metric::BytesOut);
}

proof fn lemma_shows_wire_bytes_in_total(
    snapshot: &StatsSnapshot,
    ratios: &Vec<String>,
    out: Seq<char>,
)
    requires
        fits_in_lines(snapshot, ratios),
        is_text(snapshot, ratios, out),
    ensures
        series(out, "rathole_wire_bytes_in_total"@).len() == snapshot.services@.len(),
        forall|i: int|
            #![trigger snapshot.services@[i]]
            0 <= i < snapshot.services@.len() ==> ({
                let s = snapshot.services@[i];
                series(out, "rathole_wire_bytes_in_total"@)[i] == shown(
                    "rathole_wire_bytes_in_total"@,
                    s,
                    text::decimal(s.wire_bytes_in as nat),
                )
            }),
        found(out, type_line("rathole_wire_bytes_in_total"@, Seq::empty())) == seq![type_line("rathole_wire_bytes_in_total"@, "counter"@)],
{
    lemma_order_of_metrics();
    lemma_metric_in_snapshot(snapshot, ratios, out, 6, Metric::WireBytesIn);
}

proof fn lemma_shows_wire_bytes_out_total(
    snapshot: &StatsSnapshot,
    ratios: &Vec<String>,
    out: Seq<char>,
)
    requires
        fits_in_lines(snapshot, ratios),
        is_text(snapshot, ratios, out),
    ensures
        series(out, "rathole_wire_bytes_out_total"@).len() == snapshot.services@.len(),
        forall|i: int|
            #![trigger snapshot.services@[i]]
            0 <= i < snapshot.services@.len() ==> ({
                let s = snapshot.services@[i];
                series(out, "rathole_wire_bytes_out_total"@)[i] == shown(
                    "rathole_wire_bytes_out_total"@,
                    s,
                    text::decimal(s.wire_bytes_out as nat),
                )
            }),
        found(out, type_line("rathole_wire_bytes_out_total"@, Seq::empty())) == seq![type_line("rathole_wire_bytes_out_total"@, "counter"@)],
{
    lemma_order_of_metrics();
    lemma_metric_in_snapshot(snapshot, ratios, out, 7, Metric::WireBytesOut);
}

proof fn lemma_shows_datagrams_in_total(
    snapshot: &StatsSnapshot,
    ratios: &Vec<String>,
    out: Seq<char>,
)
    requires
        fits_in_lines(snapshot, ratios),
        is_text(snapshot, ratios, out),
    ensures
        series(out, "rathole_datagrams_in_total"@).len() == snapshot.services@.len(),
        forall|i: int|
            #![trigger snapshot.services@[i]]
            0 <= i < snapshot.services@.len() ==> ({
                let s = snapshot.services@[i];
                series(out, "rathole_datagrams_in_total"@)[i] == shown(
                    "rathole_datagrams_in_total"@,
                    s,
                    text::decimal(s.datagrams_in as nat),
                )
            }),
        found(out, type_line("rathole_datagrams_in_total"@, Seq::empty())) == seq![type_line("rathole_datagrams_in_total"@, "counter"@)],
{
    lemma_order_of_metrics();
    lemma_metric_in_snapshot(snapshot, ratios, out, 8, Metric::DatagramsIn);
}

proof fn lemma_shows_datagrams_out_total(
    snapshot: &StatsSnapshot,
    ratios: &Vec<String>,
    out: Seq<char>,
)
    requires
        fits_in_lines(snapshot, ratios),
        is_text(snapshot, ratios, out),
    ensures
        series(out, "rathole_datagrams_out_total"@).len() == snapshot.services@.len(),
        forall|i: int|
            #![trigger snapshot.services@[i]]
            0 <= i < snapshot.services@.len() ==> ({
                let s = snapshot.services@[i];
                series(out, "rathole_datagrams_out_total"@)[i] == shown(
                    "rathole_datagrams_out_total"@,
                    s,
                    text::decimal(s.datagrams_out as nat),
                )
            }),
        found(out, type_line("rathole_datagrams_out_total"@, Seq::empty())) == seq![type_line("rathole_datagrams_out_total"@, "counter"@)],
{
    lemma_order_of_metrics();
    lemma_metric_in_snapshot(snapshot, ratios, out, 9, Metric::DatagramsOut);
}

proof fn lemma_shows_ratios(snapshot: &StatsSnapshot, ratios: &Vec<String>, out: Seq<char>)
    requires
        fits_in_lines(snapshot, ratios),
        is_text(snapshot, ratios, out),
    ensures
        series(out, "rathole_compression_ratio"@) == ratio_texts(
            observe::snapshot_views(snapshot.services@),
            crate::config::texts(ratios@),
        ),
        found(out, type_line("rathole_compression_ratio"@, Seq::empty())) == seq![
            type_line("rathole_compression_ratio"@, "gauge"@),
        ],
{
    reveal(is_text);
    lemma_fits_in_lines(snapshot, ratios);
    lemma_ratio_in_text(
        snapshot.uptime_secs,
        observe::snapshot_views(snapshot.services@),
        crate::config::texts(ratios@),
    );
}

/// Each series in the text, found by its name, has one line for each service, in order, and no
/// other line; and the line shows the number of the service that the name says, and no other
/// number. So what counts sessions that are over does not touch the gauge of the active ones,
/// nor do the bytes of one side or direction touch those of another. The ratio has a line for
/// each service that has one.
#[verifier::rlimit(60)]
pub proof fn law_each_series_shows_what_its_name_says(
    snapshot: &StatsSnapshot,
    ratios: &Vec<String>,
    r: String,
)
    requires
        fits_in_lines(snapshot, ratios),
        call_ensures(prometheus_text, (snapshot, ratios), r),
    ensures
        series(r@, "rathole_control_connected"@).len() == snapshot.services@.len(),
        series(r@, "rathole_connections_active"@).len() == snapshot.services@.len(),
        series(r@, "rathole_connections_total"@).len() == snapshot.services@.len(),
        series(r@, "rathole_data_channels_reused_total"@).len() == snapshot.services@.len(),
        series(r@, "rathole_bytes_in_total"@).len() == snapshot.services@.len(),
        series(r@, "rathole_bytes_out_total"@).len() == snapshot.services@.len(),
        series(r@, "rathole_wire_bytes_in_total"@).len() == snapshot.services@.len(),
        series(r@, "rathole_wire_bytes_out_total"@).len() == snapshot.services@.len(),
        series(r@, "rathole_datagrams_in_total"@).len() == snapshot.services@.len(),
        series(r@, "rathole_datagrams_out_total"@).len() == snapshot.services@.len(),
        forall|i: int|
            #![trigger snapshot.services@[i]]
            0 <= i < snapshot.services@.len() ==> ({
                let s = snapshot.services@[i];
                &&& series(r@, "rathole_control_connected"@)[i] == shown(
                    "rathole_control_connected"@,
                    s,
                    text::decimal(if s.control_connected {
                        1nat
                    } else {
                        0nat
                    }),
                )
                &&& series(r@, "rathole_connections_active"@)[i] == shown(
                    "rathole_connections_active"@,
                    s,
                    text::decimal(s.connections_active as nat),
                )
                &&& series(r@, "rathole_connections_total"@)[i] == shown(
                    "rathole_connections_total"@,
                    s,
                    text::decimal(s.connections_total as nat),
                )
                &&& series(r@, "rathole_data_channels_reused_total"@)[i] == shown(
                    "rathole_data_channels_reused_total"@,
                    s,
                    text::decimal(s.data_channels_reused as nat),
                )
                &&& series(r@, "rathole_bytes_in_total"@)[i] == shown(
                    "rathole_bytes_in_total"@,
                    s,
                    text::decimal(s.bytes_in as nat),
                )
                &&& series(r@, "rathole_bytes_out_total"@)[i] == shown(
                    "rathole_bytes_out_total"@,
                    s,
                    text::decimal(s.bytes_out as nat),
                )
                &&& series(r@, "rathole_wire_bytes_in_total"@)[i] == shown(
                    "rathole_wire_bytes_in_total"@,
                    s,
                    text::decimal(s.wire_bytes_in as nat),
                )
                &&& series(r@, "rathole_wire_bytes_out_total"@)[i] == shown(
                    "rathole_wire_bytes_out_total"@,
                    s,
                    text::decimal(s.wire_bytes_out as nat),
                )
                &&& series(r@, "rathole_datagrams_in_total"@)[i] == shown(
                    "rathole_datagrams_in_total"@,
                    s,
                    text::decimal(s.datagrams_in as nat),
                )
                &&& series(r@, "rathole_datagrams_out_total"@)[i] == shown(
                    "rathole_datagrams_out_total"@,
                    s,
                    text::decimal(s.datagrams_out as nat),
                )
            }),
        series(r@, "rathole_compression_ratio"@) == ratio_texts(
            observe::snapshot_views(snapshot.services@),
            crate::config::texts(ratios@),
        ),
{
    lemma_is_text(snapshot, ratios, r);
    lemma_shows_control_connected(snapshot, ratios, r@);
    lemma_shows_connections_active(snapshot, ratios, r@);
    lemma_shows_connections_total(snapshot, ratios, r@);
    lemma_shows_data_channels_reused_total(snapshot, ratios, r@);
    lemma_shows_bytes_in_total(snapshot, ratios, r@);
    lemma_shows_bytes_out_total(snapshot, ratios, r@);
    lemma_shows_wire_bytes_in_total(snapshot, ratios, r@);
    lemma_shows_wire_bytes_out_total(snapshot, ratios, r@);
    lemma_shows_datagrams_in_total(snapshot, ratios, r@);
    lemma_shows_datagrams_out_total(snapshot, ratios, r@);
    lemma_shows_ratios(snapshot, ratios, r@);
}

/// Each series is introduced once, with the type that it has: what goes up and down is a gauge,
/// and what only goes up is a counter.
#[verifier::rlimit(60)]
pub proof fn law_each_series_has_its_type(
    snapshot: &StatsSnapshot,
    ratios: &Vec<String>,
    r: String,
)
    requires
        fits_in_lines(snapshot, ratios),
        call_ensures(prometheus_text, (snapshot, ratios), r),
    ensures
        found(r@, type_line("rathole_control_connected"@, Seq::empty())) == seq![type_line("rathole_control_connected"@, "gauge"@)],
        found(r@, type_line("rathole_connections_active"@, Seq::empty())) == seq![type_line("rathole_connections_active"@, "gauge"@)],
        found(r@, type_line("rathole_connections_total"@, Seq::empty())) == seq![type_line("rathole_connections_total"@, "counter"@)],
        found(r@, type_line("rathole_data_channels_reused_total"@, Seq::empty())) == seq![type_line("rathole_data_channels_reused_total"@, "counter"@)],
        found(r@, type_line("rathole_bytes_in_total"@, Seq::empty())) == seq![type_line("rathole_bytes_in_total"@, "counter"@)],
        found(r@, type_line("rathole_bytes_out_total"@, Seq::empty())) == seq![type_line("rathole_bytes_out_total"@, "counter"@)],
        found(r@, type_line("rathole_wire_bytes_in_total"@, Seq::empty())) == seq![type_line("rathole_wire_bytes_in_total"@, "counter"@)],
        found(r@, type_line("rathole_wire_bytes_out_total"@, Seq::empty())) == seq![type_line("rathole_wire_bytes_out_total"@, "counter"@)],
        found(r@, type_line("rathole_datagrams_in_total"@, Seq::empty())) == seq![type_line("rathole_datagrams_in_total"@, "counter"@)],
        found(r@, type_line("rathole_datagrams_out_total"@, Seq::empty())) == seq![type_line("rathole_datagrams_out_total"@, "counter"@)],
        found(r@, type_line("rathole_compression_ratio"@, Seq::empty())) == seq![type_line("rathole_compression_ratio"@, "gauge"@)],
{
    lemma_is_text(snapshot, ratios, r);
    lemma_shows_control_connected(snapshot, ratios, r@);
    lemma_shows_connections_active(snapshot, ratios, r@);
    lemma_shows_connections_total(snapshot, ratios, r@);
    lemma_shows_data_channels_reused_total(snapshot, ratios, r@);
    lemma_shows_bytes_in_total(snapshot, ratios, r@);
    lemma_shows_bytes_out_total(snapshot, ratios, r@);
    lemma_shows_wire_bytes_in_total(snapshot, ratios, r@);
    lemma_shows_wire_bytes_out_total(snapshot, ratios, r@);
    lemma_shows_datagrams_in_total(snapshot, ratios, r@);
    lemma_shows_datagrams_out_total(snapshot, ratios, r@);
    lemma_shows_ratios(snapshot, ratios, r@);
}

/// A text with blocks behind it still begins with the text.
proof fn lemma_blocks_follow(
    s: Seq<char>,
    metrics: Seq<Metric>,
    services: Seq<ServiceSnapshotView>,
)
    ensures
        begins(with_blocks(s, metrics, services), s),
    decreases metrics.len(),
{
    if metrics.len() == 0 {
        assert(s.take(s.len() as int) =~= s);
    } else {
        let before = with_blocks(s, metrics.drop_last(), services);
        lemma_blocks_follow(s, metrics.drop_last(), services);
        let all = before + metric_block(metrics.last(), services);
        assert(all.take(s.len() as int) =~= before.take(s.len() as int));
    }
}

/// The text opens with the uptime in seconds.
pub proof fn law_the_text_opens_with_the_uptime(
    snapshot: &StatsSnapshot,
    ratios: &Vec<String>,
    r: String,
)
    requires
        call_ensures(prometheus_text, (snapshot, ratios), r),
    ensures
        begins(
            r@,
            "# HELP "@ + "rathole_uptime_seconds"@ + " "@
                + "Seconds since the observation endpoint started."@ + "\n# TYPE "@
                + "rathole_uptime_seconds"@ + " "@ + "gauge"@ + "\n"@ + "rathole_uptime_seconds "@
                + text::decimal(snapshot.uptime_secs as nat) + "\n"@,
        ),
{
    let views = observe::snapshot_views(snapshot.services@);
    let texts = crate::config::texts(ratios@);
    let s = uptime_lines(snapshot.uptime_secs);
    lemma_text_is_made_of_blocks(snapshot.uptime_secs, views, texts);
    lemma_blocks_follow(s, all_metrics(), views);
    let blocks = with_blocks(s, all_metrics(), views);
    assert(r@.take(s.len() as int) =~= blocks.take(s.len() as int));
}

} // verus!
