use vstd::prelude::*;

verus! {

/// The published gauges: a prometheus registry together with one gauge
/// family per catalogue entry, every family dimensioned by the one
/// `nodename` label and instantiated for the single configured label value.
/// Verus sees this table only through `table_entries` and `table_label` and
/// the operations below.
#[verifier::external_body]
pub struct GaugeTable {
    registry: prometheus::Registry,
    gauges: Vec<prometheus::GaugeVec>,
    node: String,
}

/// What the table holds: for each gauge, in registration order, its metric
/// name, its description, and the bit pattern of its current value.
pub uninterp spec fn table_entries(t: GaugeTable) -> Seq<(Seq<char>, Seq<char>, u64)>;

/// The one label value every gauge of the table carries.
pub uninterp spec fn table_label(t: GaugeTable) -> Seq<char>;

/// Whether the registry accepts one more gauge family with this name and
/// description, given what the table already holds. Registration is
/// deterministic in these alone: the registry checks the descriptor it
/// derives from them against the descriptors already registered.
pub uninterp spec fn registration_accepted(
    entries: Seq<(Seq<char>, Seq<char>, u64)>,
    name: Seq<char>,
    help: Seq<char>,
) -> bool;

/// A character that may start a metric name: a letter, an underscore or a
/// colon.
pub open spec fn is_name_start(c: char) -> bool {
    ('a' <= c && c <= 'z') || ('A' <= c && c <= 'Z') || c == '_' || c == ':'
}

/// A character that may follow in a metric name: a start character or a
/// digit.
pub open spec fn is_name_char(c: char) -> bool {
    is_name_start(c) || ('0' <= c && c <= '9')
}

/// A well-formed metric name as the registry validates it: nonempty, a
/// letter, underscore or colon first, then letters, digits, underscores and
/// colons.
pub open spec fn valid_metric_name(s: Seq<char>) -> bool {
    &&& s.len() > 0
    &&& is_name_start(s[0])
    &&& forall|k: int| 1 <= k < s.len() ==> is_name_char(#[trigger] s[k])
}

/// What the prometheus text encoder makes of a table with the given entries
/// and label value. The exposition text is a function of the contents alone:
/// gathering sorts the metric families by name before they are encoded.
pub uninterp spec fn rendering_of(
    entries: Seq<(Seq<char>, Seq<char>, u64)>,
    label: Seq<char>,
) -> Seq<char>;

/// Relies on `prometheus::Registry::new`: a fresh registry holds no
/// collectors, so the new table has no entries.
#[verifier::external_body]
pub fn table_new(node: &str) -> (t: GaugeTable)
    ensures
        table_entries(t) == Seq::<(Seq<char>, Seq<char>, u64)>::empty(),
        table_label(t) == node@,
{
    GaugeTable { registry: prometheus::Registry::new(), gauges: Vec::new(), node: node.to_owned() }
}

/// Relies on `prometheus::GaugeVec::new` and `prometheus::Registry::register`:
/// the new gauge family carries the given name and description and the one
/// `nodename` label, and registration adds exactly that collector, refusing a
/// duplicate or invalid name. The outcome is a function of the given name
/// and description and of what is already registered (`registration_accepted`).
/// Per the registry's documented uniqueness criteria, a valid name with a
/// nonempty description that no registered family carries is accepted:
/// uniqueness is checked on the fully-qualified name together with the
/// constant label values, and this table sets no constant labels; the one
/// variable label `nodename` is a valid label name. The family's gauge for
/// the configured label value is created at once with value zero
/// (`GenericGauge::set`), so the entry is rendered before any sample arrives.
#[verifier::external_body]
pub fn table_add_gauge(t: &mut GaugeTable, name: &str, help: &str) -> (ok: bool)
    ensures
        ok == registration_accepted(table_entries(*old(t)), name@, help@),
        (valid_metric_name(name@) && help@.len() > 0 && (forall|j: int|
            0 <= j < table_entries(*old(t)).len() ==> (#[trigger] table_entries(
                *old(t),
            )[j]).0 != name@)) ==> ok,
        ok ==> table_entries(*final(t)) == table_entries(*old(t)).push((name@, help@, 0u64)),
        !ok ==> table_entries(*final(t)) == table_entries(*old(t)),
        table_label(*final(t)) == table_label(*old(t)),
{
    let gauge = match prometheus::GaugeVec::new(prometheus::Opts::new(name, help), &["nodename"]) {
        Ok(g) => g,
        Err(_) => return false,
    };
    if t.registry.register(Box::new(gauge.clone())).is_err() {
        return false;
    }
    if let Ok(child) = gauge.get_metric_with_label_values(&[t.node.as_str()]) {
        child.set(Default::default());
    }
    t.gauges.push(gauge);
    true
}

/// Relies on `str::parse::<f64>` (through `f64_bits_of`),
/// `prometheus::core::MetricVec::get_metric_with_label_values` and
/// `prometheus::core::GenericGauge::set`: the gauge for the table's one label
/// value is overwritten with the number the field parses as, or with zero
/// where it does not parse, and nothing else changes. Bytes that are not
/// valid UTF-8 parse as no number.
#[verifier::external_body]
pub fn table_set_field(t: &mut GaugeTable, i: usize, field: &[u8])
    requires
        i < table_entries(*old(t)).len(),
    ensures
        table_entries(*final(t)) == table_entries(*old(t)).update(
            i as int,
            (
                table_entries(*old(t))[i as int].0,
                table_entries(*old(t))[i as int].1,
                match crate::parser::f64_bits_of(field@) {
                    Some(bits) => bits,
                    None => 0u64,
                },
            ),
        ),
        table_label(*final(t)) == table_label(*old(t)),
{
    let text = core::str::from_utf8(field).unwrap_or("");
    if let Some(gauge) = t.gauges.get(i) {
        if let Ok(child) = gauge.get_metric_with_label_values(&[t.node.as_str()]) {
            child.set(text.parse().unwrap_or(Default::default()));
        }
    }
}

/// Relies on `prometheus::Registry::gather` and
/// `prometheus::TextEncoder::encode_to_string`: gathering returns the metric
/// families sorted by name, so the text encoding is a function of the table's
/// entries and label value alone. Encoding into a `String` cannot fail for a
/// table built here: the encoder's string writer always succeeds, its only
/// checks are that a family has a metric and a nonempty name, gathering
/// prunes families without metrics, and every registered name passed the
/// registry's validation — so the call returns the text.
#[verifier::external_body]
pub fn table_render(t: &GaugeTable) -> (r: Option<String>)
    ensures
        r is Some,
        r matches Some(s) ==> s@ == rendering_of(table_entries(*t), table_label(*t)),
{
    prometheus::TextEncoder::new().encode_to_string(&t.registry.gather()).ok()
}

/// Relies on `prometheus::TEXT_FORMAT`: the content type of the text
/// exposition format.
#[verifier::external_body]
pub fn text_format_type() -> (r: &'static str)
    ensures
        r@ == "text/plain; version=0.0.4"@,
{
    prometheus::TEXT_FORMAT
}

} // verus!
