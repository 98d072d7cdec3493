//! The metrics registry: named gauges, registered once and updated in place.
//!
//! An instrument is a single gauge or a family of gauges keyed by a `bucket`
//! label. The registry keeps the instruments in the order of registration and
//! never holds two of one name.

use vstd::prelude::*;
use vstd::string::*;

verus! {

/// How the number that a gauge holds is to be read.
#[derive(Clone, Copy, Debug, PartialEq, Eq, Structural)]
pub enum GaugeKind {
    /// A whole number, shown as an integer.
    Integer,
    /// A whole number, shown as a real.
    Real,
    /// A count of millionths, shown as a real.
    Millionths,
}

/// Why the registry refused an operation.
#[derive(Clone, Copy, Debug, PartialEq, Eq, Structural)]
pub enum RegistryError {
    /// An instrument of that name is registered already.
    Conflict,
    /// No instrument of that name is registered.
    NotRegistered,
    /// The instrument of that name is of the other shape: a family where a
    /// single gauge was meant, or the reverse.
    Mismatch,
}

/// The label set of the CPU load family: its one label, `bucket`.
#[derive(Clone, Debug, PartialEq, Eq, Hash)]
pub struct CpuLabels {
    bucket: String,
}

/// One gauge of a family, with the labels that key it.
#[derive(Debug)]
pub struct Series {
    pub labels: CpuLabels,
    pub value: u64,
}

/// What an instrument currently holds.
#[derive(Debug)]
pub enum Readings {
    /// A single gauge.
    Scalar(u64),
    /// A family: one gauge for each label set written so far.
    Family(Vec<Series>),
}

/// A registered instrument.
#[derive(Debug)]
pub struct MetricInstrument {
    pub name: String,
    pub help: String,
    pub kind: GaugeKind,
    pub readings: Readings,
}

/// The registry.
#[derive(Debug)]
pub struct MetricsRegistry {
    instruments: Vec<MetricInstrument>,
}

/// One gauge of a family as contracts see it.
pub struct SeriesView {
    pub bucket: Seq<char>,
    pub value: u64,
}

/// What an instrument holds as contracts see it.
pub enum ReadingsView {
    Scalar(u64),
    Family(Seq<SeriesView>),
}

/// An instrument as contracts see it.
pub struct InstrumentView {
    pub name: Seq<char>,
    pub help: Seq<char>,
    pub kind: GaugeKind,
    pub readings: ReadingsView,
}

/// The values that the `bucket` label takes.
pub open spec fn is_bucket(bucket: Seq<char>) -> bool {
    bucket == "1m"@ || bucket == "5m"@ || bucket == "15m"@
}

/// The gauges of a family take their labels from the buckets, and no two of
/// them the same.
pub open spec fn series_wf(series: Seq<SeriesView>) -> bool {
    &&& forall|j: int| 0 <= j < series.len() ==> is_bucket(#[trigger] series[j].bucket)
    &&& forall|j: int, k: int|
        0 <= j < k < series.len() ==> #[trigger] series[j].bucket != #[trigger] series[k].bucket
}

/// No two instruments have one name, and every family is well formed.
pub open spec fn registry_wf(model: Seq<InstrumentView>) -> bool {
    &&& forall|i: int, j: int|
        0 <= i < j < model.len() ==> #[trigger] model[i].name != #[trigger] model[j].name
    &&& forall|i: int|
        0 <= i < model.len() ==> (#[trigger] model[i].readings matches ReadingsView::Family(series)
            ==> series_wf(series))
}

/// Whether an instrument of that name is registered.
pub open spec fn has_name(model: Seq<InstrumentView>, name: Seq<char>) -> bool {
    exists|i: int| 0 <= i < model.len() && #[trigger] model[i].name == name
}

/// The instrument of that name.
pub open spec fn lookup(model: Seq<InstrumentView>, name: Seq<char>) -> Option<InstrumentView> {
    if has_name(model, name) {
        Some(model[choose|i: int| 0 <= i < model.len() && #[trigger] model[i].name == name])
    } else {
        None
    }
}

/// What an instrument holds right after registration: a single gauge holds
/// zero, a family no gauge yet.
pub open spec fn fresh(name: Seq<char>, help: Seq<char>, kind: GaugeKind, labeled: bool)
    -> InstrumentView {
    InstrumentView {
        name,
        help,
        kind,
        readings: if labeled {
            ReadingsView::Family(Seq::empty())
        } else {
            ReadingsView::Scalar(0)
        },
    }
}

/// Registration: refused where the name is taken, else the instrument is
/// added behind the others.
pub open spec fn registered(model: Seq<InstrumentView>, entry: InstrumentView) -> Result<
    Seq<InstrumentView>,
    RegistryError,
> {
    if has_name(model, entry.name) {
        Err(RegistryError::Conflict)
    } else {
        Ok(model.push(entry))
    }
}

/// How many value lines an exposition of the instrument has.
pub open spec fn value_lines(entry: InstrumentView) -> nat {
    match entry.readings {
        ReadingsView::Scalar(_) => 1,
        ReadingsView::Family(series) => series.len(),
    }
}

/// Whether a family holds a gauge for that bucket.
pub open spec fn has_bucket(series: Seq<SeriesView>, bucket: Seq<char>) -> bool {
    exists|j: int| 0 <= j < series.len() && #[trigger] series[j].bucket == bucket
}

/// The value that a family holds for a bucket.
pub open spec fn bucket_value(series: Seq<SeriesView>, bucket: Seq<char>) -> Option<u64> {
    if has_bucket(series, bucket) {
        Some(
            series[choose|j: int| 0 <= j < series.len() && #[trigger] series[j].bucket
                == bucket].value,
        )
    } else {
        None
    }
}

/// A family after a write to the gauge of a bucket: the gauge is made behind
/// the others on the first write, and updated in place after that.
pub open spec fn put_series(series: Seq<SeriesView>, bucket: Seq<char>, value: u64) -> Seq<
    SeriesView,
> {
    if has_bucket(series, bucket) {
        Seq::new(
            series.len(),
            |j: int|
                if series[j].bucket == bucket {
                    SeriesView { bucket, value }
                } else {
                    series[j]
                },
        )
    } else {
        series.push(SeriesView { bucket, value })
    }
}

/// The registry after a write to the single gauge of a name.
pub open spec fn with_scalar(model: Seq<InstrumentView>, name: Seq<char>, value: u64) -> Seq<
    InstrumentView,
> {
    Seq::new(
        model.len(),
        |i: int|
            if model[i].name == name {
                InstrumentView { readings: ReadingsView::Scalar(value), ..model[i] }
            } else {
                model[i]
            },
    )
}

/// The registry after a write to one gauge of the family of a name.
pub open spec fn with_series(
    model: Seq<InstrumentView>,
    name: Seq<char>,
    bucket: Seq<char>,
    value: u64,
) -> Seq<InstrumentView> {
    Seq::new(
        model.len(),
        |i: int|
            match model[i].readings {
                ReadingsView::Family(series) if model[i].name == name => InstrumentView {
                    readings: ReadingsView::Family(put_series(series, bucket, value)),
                    ..model[i]
                },
                _ => model[i],
            },
    )
}

/// Whether the instrument of a name is there and of the shape meant.
pub open spec fn shape_check(model: Seq<InstrumentView>, name: Seq<char>, labeled: bool)
    -> Result<(), RegistryError> {
    match lookup(model, name) {
        None => Err(RegistryError::NotRegistered),
        Some(entry) => if (entry.readings is Family) == labeled {
            Ok(())
        } else {
            Err(RegistryError::Mismatch)
        },
    }
}

/// A write to the single gauge of a name.
pub open spec fn scalar_update(model: Seq<InstrumentView>, name: Seq<char>, value: u64)
    -> Result<Seq<InstrumentView>, RegistryError> {
    match shape_check(model, name, false) {
        Ok(()) => Ok(with_scalar(model, name, value)),
        Err(e) => Err(e),
    }
}

/// A write to one gauge of the family of a name.
pub open spec fn series_update(
    model: Seq<InstrumentView>,
    name: Seq<char>,
    bucket: Seq<char>,
    value: u64,
) -> Result<Seq<InstrumentView>, RegistryError> {
    match shape_check(model, name, true) {
        Ok(()) => Ok(with_series(model, name, bucket, value)),
        Err(e) => Err(e),
    }
}

/// Two registries hold instruments of the same names and shapes, in the same
/// order.
pub open spec fn same_layout(a: Seq<InstrumentView>, b: Seq<InstrumentView>) -> bool {
    &&& a.len() == b.len()
    &&& forall|i: int|
        0 <= i < a.len() ==> (#[trigger] a[i]).name == b[i].name && a[i].help == b[i].help
            && a[i].kind == b[i].kind && (a[i].readings is Family) == (b[i].readings is Family)
}

/// The gauges of a family as contracts see them.
pub open spec fn series_views(series: Seq<Series>) -> Seq<SeriesView> {
    Seq::new(series.len(), |j: int| series[j]@)
}

/// The instruments of a registry as contracts see them.
pub open spec fn instrument_views(instruments: Seq<MetricInstrument>) -> Seq<InstrumentView> {
    Seq::new(instruments.len(), |i: int| instruments[i]@)
}

impl View for CpuLabels {
    type V = Seq<char>;

    closed spec fn view(&self) -> Seq<char> {
        self.bucket@
    }
}

impl View for Series {
    type V = SeriesView;

    open spec fn view(&self) -> SeriesView {
        SeriesView { bucket: self.labels@, value: self.value }
    }
}

impl View for Readings {
    type V = ReadingsView;

    open spec fn view(&self) -> ReadingsView {
        match self {
            Readings::Scalar(value) => ReadingsView::Scalar(*value),
            Readings::Family(series) => ReadingsView::Family(series_views(series@)),
        }
    }
}

impl View for MetricInstrument {
    type V = InstrumentView;

    open spec fn view(&self) -> InstrumentView {
        InstrumentView {
            name: self.name@,
            help: self.help@,
            kind: self.kind,
            readings: self.readings@,
        }
    }
}

impl View for MetricsRegistry {
    type V = Seq<InstrumentView>;

    closed spec fn view(&self) -> Seq<InstrumentView> {
        instrument_views(self.instruments@)
    }
}

/// Under distinct names, the instrument of a name is the one found under it.
pub proof fn lemma_lookup(model: Seq<InstrumentView>, name: Seq<char>, i: int)
    requires
        registry_wf(model),
        0 <= i < model.len(),
        model[i].name == name,
    ensures
        has_name(model, name),
        lookup(model, name) == Some(model[i]),
{
    let c = choose|c: int| 0 <= c < model.len() && #[trigger] model[c].name == name;
    if c < i {
        assert(model[c].name != model[i].name);
    } else if i < c {
        assert(model[i].name != model[c].name);
    }
}

/// Registries of one layout answer every shape check alike.
pub proof fn lemma_same_layout(a: Seq<InstrumentView>, b: Seq<InstrumentView>)
    requires
        registry_wf(a),
        registry_wf(b),
        same_layout(a, b),
    ensures
        forall|name: Seq<char>|
            #![trigger has_name(b, name)]
            has_name(b, name) == has_name(a, name),
        forall|name: Seq<char>, labeled: bool|
            #![trigger shape_check(b, name, labeled)]
            shape_check(b, name, labeled) == shape_check(a, name, labeled),
{
    assert forall|name: Seq<char>| #![trigger has_name(b, name)] has_name(b, name) == has_name(
        a,
        name,
    ) by {
        if has_name(a, name) {
            let i = choose|i: int| 0 <= i < a.len() && #[trigger] a[i].name == name;
            assert(b[i].name == name);
        }
        if has_name(b, name) {
            let i = choose|i: int| 0 <= i < b.len() && #[trigger] b[i].name == name;
            assert(a[i].name == name);
        }
    }
    assert forall|name: Seq<char>, labeled: bool|
        #![trigger shape_check(b, name, labeled)]
        shape_check(b, name, labeled) == shape_check(a, name, labeled) by {
        if has_name(a, name) {
            let i = choose|i: int| 0 <= i < a.len() && #[trigger] a[i].name == name;
            assert(b[i].name == name);
            lemma_lookup(a, name, i);
            lemma_lookup(b, name, i);
        }
    }
}

/// A write to a family keeps it well formed.
pub proof fn lemma_put_series_wf(series: Seq<SeriesView>, bucket: Seq<char>, value: u64)
    requires
        series_wf(series),
        is_bucket(bucket),
    ensures
        series_wf(put_series(series, bucket, value)),
        has_bucket(put_series(series, bucket, value), bucket),
{
    let after = put_series(series, bucket, value);
    if has_bucket(series, bucket) {
        let j = choose|j: int| 0 <= j < series.len() && #[trigger] series[j].bucket == bucket;
        assert(after[j].bucket == bucket);
        assert forall|j: int, k: int| 0 <= j < k < after.len() implies #[trigger] after[j].bucket
            != #[trigger] after[k].bucket by {
            assert(after[j].bucket == series[j].bucket);
            assert(after[k].bucket == series[k].bucket);
        }
    } else {
        assert(after[series.len() as int].bucket == bucket);
        assert forall|j: int, k: int| 0 <= j < k < after.len() implies #[trigger] after[j].bucket
            != #[trigger] after[k].bucket by {
            if k < series.len() {
                assert(after[j].bucket == series[j].bucket);
                assert(after[k].bucket == series[k].bucket);
            } else {
                assert(after[j].bucket == series[j].bucket);
            }
        }
    }
}

/// A write to a single gauge keeps the registry well formed and its layout.
pub proof fn lemma_with_scalar(model: Seq<InstrumentView>, name: Seq<char>, value: u64)
    requires
        registry_wf(model),
    ensures
        shape_check(model, name, false) is Ok ==> registry_wf(with_scalar(model, name, value))
            && same_layout(model, with_scalar(model, name, value)),
{
    let after = with_scalar(model, name, value);
    if shape_check(model, name, false) is Ok {
        let i = choose|i: int| 0 <= i < model.len() && #[trigger] model[i].name == name;
        lemma_lookup(model, name, i);
        assert forall|k: int| 0 <= k < model.len() implies (#[trigger] model[k]).name
            == after[k].name && model[k].help == after[k].help && model[k].kind == after[k].kind
            && (model[k].readings is Family) == (after[k].readings is Family) by {
            if model[k].name == name {
                lemma_lookup(model, name, k);
            }
        }
        assert forall|a: int, b: int| 0 <= a < b < after.len() implies #[trigger] after[a].name
            != #[trigger] after[b].name by {
            assert(model[a].name != model[b].name);
        }
        assert forall|k: int| 0 <= k < after.len() implies (
        #[trigger] after[k].readings matches ReadingsView::Family(series) ==> series_wf(series)) by {
            assert(model[k].readings is Family ==> after[k] == model[k]);
        }
    }
}

/// A write to a family keeps the registry well formed and its layout.
pub proof fn lemma_with_series(
    model: Seq<InstrumentView>,
    name: Seq<char>,
    bucket: Seq<char>,
    value: u64,
)
    requires
        registry_wf(model),
        is_bucket(bucket),
    ensures
        registry_wf(with_series(model, name, bucket, value)),
        same_layout(model, with_series(model, name, bucket, value)),
{
    let after = with_series(model, name, bucket, value);
    assert forall|a: int, b: int| 0 <= a < b < after.len() implies #[trigger] after[a].name
        != #[trigger] after[b].name by {
        assert(model[a].name != model[b].name);
    }
    assert forall|k: int| 0 <= k < after.len() implies (
    #[trigger] after[k].readings matches ReadingsView::Family(series) ==> series_wf(series)) by {
        match model[k].readings {
            ReadingsView::Family(series) => {
                lemma_put_series_wf(series, bucket, value);
            },
            ReadingsView::Scalar(_) => {},
        }
    }
}

/// A name can be registered once: after a registration under a name, every
/// further registration under that name is refused as a conflict.
pub proof fn lemma_second_registration_conflicts(
    model: Seq<InstrumentView>,
    first: InstrumentView,
    second: InstrumentView,
)
    requires
        first.name == second.name,
    ensures
        registered(model, first) matches Ok(next) ==> registered(next, second) == Err::<
            Seq<InstrumentView>,
            RegistryError,
        >(RegistryError::Conflict),
        registered(model, first) is Err ==> registered(model, second) == registered(model, first),
{
    if registered(model, first) is Ok {
        let next = model.push(first);
        assert(next[model.len() as int].name == second.name);
    }
}

/// In a well-formed family, the value of a bucket is that of the gauge found
/// under it.
pub proof fn lemma_bucket_value(series: Seq<SeriesView>, j: int)
    requires
        series_wf(series),
        0 <= j < series.len(),
    ensures
        has_bucket(series, series[j].bucket),
        bucket_value(series, series[j].bucket) == Some(series[j].value),
{
    let bucket = series[j].bucket;
    let c = choose|c: int| 0 <= c < series.len() && #[trigger] series[c].bucket == bucket;
    if c < j {
        assert(series[c].bucket != series[j].bucket);
    } else if j < c {
        assert(series[j].bucket != series[c].bucket);
    }
}

/// A write to a family is read back under its bucket, and leaves the values
/// of the other buckets as they were.
pub proof fn lemma_put_series_reads(
    series: Seq<SeriesView>,
    bucket: Seq<char>,
    value: u64,
    other: Seq<char>,
)
    requires
        series_wf(series),
        is_bucket(bucket),
    ensures
        bucket_value(put_series(series, bucket, value), bucket) == Some(value),
        other != bucket ==> bucket_value(put_series(series, bucket, value), other) == bucket_value(
            series,
            other,
        ),
{
    let after = put_series(series, bucket, value);
    lemma_put_series_wf(series, bucket, value);
    let at = choose|j: int| 0 <= j < after.len() && #[trigger] after[j].bucket == bucket;
    lemma_bucket_value(after, at);
    assert(after[at].value == value);
    if other != bucket {
        if has_bucket(series, other) {
            let j = choose|j: int| 0 <= j < series.len() && #[trigger] series[j].bucket == other;
            lemma_bucket_value(series, j);
            assert(after[j] == series[j]);
            lemma_bucket_value(after, j);
        } else if has_bucket(after, other) {
            let j = choose|j: int| 0 <= j < after.len() && #[trigger] after[j].bucket == other;
            if j < series.len() {
                assert(series[j].bucket == other);
            }
        }
    }
}

/// In a well-formed family, a gauge is found at one position only.
proof fn lemma_bucket_position(series: Seq<SeriesView>, j: int, k: int)
    requires
        series_wf(series),
        0 <= j < series.len(),
        0 <= k < series.len(),
        series[j].bucket == series[k].bucket,
    ensures
        j == k,
{
    if j < k {
        assert(series[j].bucket != series[k].bucket);
    } else if k < j {
        assert(series[k].bucket != series[j].bucket);
    }
}

/// In a well-formed family, every gauge is that of one of the three buckets.
proof fn lemma_bucket_among(series: Seq<SeriesView>, j: int, a: int, b: int, c: int)
    requires
        series_wf(series),
        0 <= j < series.len(),
        0 <= a < series.len() && series[a].bucket == "1m"@,
        0 <= b < series.len() && series[b].bucket == "5m"@,
        0 <= c < series.len() && series[c].bucket == "15m"@,
    ensures
        j == a || j == b || j == c,
{
    assert(is_bucket(series[j].bucket));
    if series[j].bucket == "1m"@ {
        lemma_bucket_position(series, j, a);
    } else if series[j].bucket == "5m"@ {
        lemma_bucket_position(series, j, b);
    } else {
        lemma_bucket_position(series, j, c);
    }
}

/// A family that is well formed and holds a gauge for each of the three
/// buckets holds exactly three gauges.
pub proof fn lemma_three_buckets(series: Seq<SeriesView>)
    requires
        series_wf(series),
        has_bucket(series, "1m"@),
        has_bucket(series, "5m"@),
        has_bucket(series, "15m"@),
    ensures
        series.len() == 3,
{
    reveal_strlit("1m");
    reveal_strlit("5m");
    reveal_strlit("15m");
    let a = choose|j: int| 0 <= j < series.len() && #[trigger] series[j].bucket == "1m"@;
    let b = choose|j: int| 0 <= j < series.len() && #[trigger] series[j].bucket == "5m"@;
    let c = choose|j: int| 0 <= j < series.len() && #[trigger] series[j].bucket == "15m"@;
    assert("1m"@[0] != "5m"@[0]);
    assert("1m"@.len() != "15m"@.len());
    assert("5m"@.len() != "15m"@.len());
    assert(a != b && a != c && b != c);
    if series.len() > 3 {
        lemma_bucket_among(series, 0, a, b, c);
        lemma_bucket_among(series, 1, a, b, c);
        lemma_bucket_among(series, 2, a, b, c);
        lemma_bucket_among(series, 3, a, b, c);
        assert(0 == a || 0 == b || 0 == c);
        assert(1 == a || 1 == b || 1 == c);
        assert(2 == a || 2 == b || 2 == c);
        assert(3 == a || 3 == b || 3 == c);
    }
}

/// A write to a single gauge is read back under its name, and leaves the
/// other instruments as they were.
pub proof fn lemma_scalar_written(model: Seq<InstrumentView>, name: Seq<char>, value: u64)
    requires
        registry_wf(model),
        shape_check(model, name, false) is Ok,
    ensures
        lookup(with_scalar(model, name, value), name) matches Some(entry) && entry.readings
            == ReadingsView::Scalar(value),
        forall|other: Seq<char>|
            other != name ==> #[trigger] lookup(with_scalar(model, name, value), other) == lookup(
                model,
                other,
            ),
{
    let after = with_scalar(model, name, value);
    lemma_with_scalar(model, name, value);
    lemma_same_layout(model, after);
    let i = choose|i: int| 0 <= i < model.len() && #[trigger] model[i].name == name;
    lemma_lookup(model, name, i);
    lemma_lookup(after, name, i);
    assert forall|other: Seq<char>| other != name implies #[trigger] lookup(after, other) == lookup(
        model,
        other,
    ) by {
        if has_name(model, other) {
            let k = choose|k: int| 0 <= k < model.len() && #[trigger] model[k].name == other;
            lemma_lookup(model, other, k);
            lemma_lookup(after, other, k);
        }
    }
}

/// A write to a family is read back under its name, and leaves the other
/// instruments as they were.
pub proof fn lemma_series_written(
    model: Seq<InstrumentView>,
    name: Seq<char>,
    bucket: Seq<char>,
    value: u64,
)
    requires
        registry_wf(model),
        is_bucket(bucket),
        shape_check(model, name, true) is Ok,
    ensures
        ({
            &&& lookup(model, name) matches Some(before)
            &&& before.readings matches ReadingsView::Family(series)
            &&& series_wf(series)
            &&& lookup(with_series(model, name, bucket, value), name) matches Some(entry)
            &&& entry.readings == ReadingsView::Family(put_series(series, bucket, value))
        }),
        forall|other: Seq<char>|
            other != name ==> #[trigger] lookup(with_series(model, name, bucket, value), other)
                == lookup(model, other),
{
    let after = with_series(model, name, bucket, value);
    lemma_with_series(model, name, bucket, value);
    lemma_same_layout(model, after);
    let i = choose|i: int| 0 <= i < model.len() && #[trigger] model[i].name == name;
    lemma_lookup(model, name, i);
    lemma_lookup(after, name, i);
    assert(model[i].readings is Family);
    assert forall|other: Seq<char>| other != name implies #[trigger] lookup(after, other) == lookup(
        model,
        other,
    ) by {
        if has_name(model, other) {
            let k = choose|k: int| 0 <= k < model.len() && #[trigger] model[k].name == other;
            lemma_lookup(model, other, k);
            lemma_lookup(after, other, k);
        }
    }
}

impl CpuLabels {
    /// The label value is one of the buckets.
    pub open spec fn wf(&self) -> bool {
        is_bucket(self@)
    }

    /// The labels of the one-minute load.
    pub fn one_minute() -> (labels: CpuLabels)
        ensures
            labels@ == "1m"@,
            labels.wf(),
    {
        CpuLabels { bucket: String::from_str("1m") }
    }

    /// The labels of the five-minute load.
    pub fn five_minutes() -> (labels: CpuLabels)
        ensures
            labels@ == "5m"@,
            labels.wf(),
    {
        CpuLabels { bucket: String::from_str("5m") }
    }

    /// The labels of the fifteen-minute load.
    pub fn fifteen_minutes() -> (labels: CpuLabels)
        ensures
            labels@ == "15m"@,
            labels.wf(),
    {
        CpuLabels { bucket: String::from_str("15m") }
    }

    /// The value of the `bucket` label.
    pub fn bucket(&self) -> (bucket: &String)
        ensures
            bucket@ == self@,
    {
        &self.bucket
    }

    /// Whether two label sets are the same.
    pub fn same(&self, other: &CpuLabels) -> (same: bool)
        ensures
            same == (self@ == other@),
    {
        self.bucket == other.bucket
    }
}

impl MetricInstrument {
    /// How many value lines an exposition of the instrument has.
    pub fn value_count(&self) -> (count: usize)
        ensures
            count == value_lines(self@),
    {
        match &self.readings {
            Readings::Scalar(_) => 1,
            Readings::Family(series) => series.len(),
        }
    }
}

impl MetricsRegistry {
    /// What every registry keeps: distinct names and well-formed families.
    pub open spec fn wf(&self) -> bool {
        registry_wf(self@)
    }

    /// A registry without instruments.
    pub fn new() -> (registry: MetricsRegistry)
        ensures
            registry@ == Seq::<InstrumentView>::empty(),
            registry.wf(),
    {
        MetricsRegistry { instruments: Vec::new() }
    }

    /// The number of instruments.
    pub fn len(&self) -> (len: usize)
        ensures
            len == self@.len(),
    {
        self.instruments.len()
    }

    /// The instrument at a position, in the order of registration.
    pub fn get(&self, index: usize) -> (instrument: Option<&MetricInstrument>)
        ensures
            index < self@.len() ==> instrument.is_some() && instrument.unwrap()@ == self@[
                index as int],
            index >= self@.len() ==> instrument.is_none(),
    {
        if index < self.instruments.len() {
            Some(&self.instruments[index])
        } else {
            None
        }
    }

    /// The position of the instrument of a name: the first of that name.
    pub fn find(&self, name: &String) -> (index: Option<usize>)
        ensures
            match index {
                Some(i) => i < self@.len() && self@[i as int].name == name@ && forall|k: int|
                    0 <= k < i ==> (#[trigger] self@[k]).name != name@,
                None => !has_name(self@, name@),
            },
    {
        let mut i: usize = 0;
        while i < self.instruments.len()
            invariant
                i <= self.instruments.len(),
                forall|k: int| 0 <= k < i ==> (#[trigger] self@[k]).name != name@,
            decreases self.instruments.len() - i,
        {
            if self.instruments[i].name == *name {
                return Some(i);
            }
            i = i + 1;
        }
        None
    }

    /// Registers an instrument, a family where `labeled` is set. A name can
    /// be registered once.
    pub fn register(&mut self, name: String, help: String, kind: GaugeKind, labeled: bool) -> (done:
        Result<(), RegistryError>)
        requires
            old(self).wf(),
        ensures
            registered(old(self)@, fresh(name@, help@, kind, labeled)) == match done {
                Ok(()) => Ok::<Seq<InstrumentView>, RegistryError>(final(self)@),
                Err(e) => Err(e),
            },
            done is Err ==> final(self)@ == old(self)@,
            final(self).wf(),
    {
        if self.find(&name).is_some() {
            return Err(RegistryError::Conflict);
        }
        let readings = if labeled {
            Readings::Family(Vec::new())
        } else {
            Readings::Scalar(0)
        };
        let instrument = MetricInstrument { name, help, kind, readings };
        proof {
            assert(instrument@ == fresh(name@, help@, kind, labeled)) by {
                if labeled {
                    assert(series_views(Seq::<Series>::empty()) =~= Seq::<SeriesView>::empty());
                }
            }
        }
        self.instruments.push(instrument);
        proof {
            assert(self@ =~= old(self)@.push(instrument@));
        }
        Ok(())
    }

    /// Whether the instrument of a name is there and of the shape meant.
    pub fn check_shape(&self, name: &String, labeled: bool) -> (checked: Result<(), RegistryError>)
        requires
            self.wf(),
        ensures
            checked == shape_check(self@, name@, labeled),
    {
        match self.find(name) {
            None => Err(RegistryError::NotRegistered),
            Some(i) => {
                proof {
                    lemma_lookup(self@, name@, i as int);
                }
                let family = match &self.instruments[i].readings {
                    Readings::Family(_) => true,
                    Readings::Scalar(_) => false,
                };
                if family == labeled {
                    Ok(())
                } else {
                    Err(RegistryError::Mismatch)
                }
            },
        }
    }

    /// Writes the single gauge of a name.
    pub fn set(&mut self, name: &String, value: u64) -> (done: Result<(), RegistryError>)
        requires
            old(self).wf(),
        ensures
            scalar_update(old(self)@, name@, value) == match done {
                Ok(()) => Ok::<Seq<InstrumentView>, RegistryError>(final(self)@),
                Err(e) => Err(e),
            },
            done is Err ==> final(self)@ == old(self)@,
            final(self).wf(),
            same_layout(old(self)@, final(self)@),
    {
        match self.find(name) {
            None => Err(RegistryError::NotRegistered),
            Some(i) => {
                proof {
                    lemma_lookup(self@, name@, i as int);
                    lemma_with_scalar(self@, name@, value);
                }
                let family = match &self.instruments[i].readings {
                    Readings::Family(_) => true,
                    Readings::Scalar(_) => false,
                };
                if family {
                    Err(RegistryError::Mismatch)
                } else {
                    self.instruments[i].readings = Readings::Scalar(value);
                    proof {
                        assert forall|k: int| 0 <= k < self@.len() implies self@[k] == with_scalar(
                            old(self)@,
                            name@,
                            value,
                        )[k] by {
                            if old(self)@[k].name == name@ {
                                lemma_lookup(old(self)@, name@, k);
                            }
                        }
                        assert(self@ =~= with_scalar(old(self)@, name@, value));
                    }
                    Ok(())
                }
            },
        }
    }

    /// Writes one gauge of the family of a name: the gauge of `labels`, which
    /// the first write makes.
    pub fn set_labeled(&mut self, name: &String, labels: CpuLabels, value: u64) -> (done: Result<
        (),
        RegistryError,
    >)
        requires
            old(self).wf(),
            labels.wf(),
        ensures
            series_update(old(self)@, name@, labels@, value) == match done {
                Ok(()) => Ok::<Seq<InstrumentView>, RegistryError>(final(self)@),
                Err(e) => Err(e),
            },
            done is Err ==> final(self)@ == old(self)@,
            final(self).wf(),
            same_layout(old(self)@, final(self)@),
    {
        match self.find(name) {
            None => Err(RegistryError::NotRegistered),
            Some(i) => {
                proof {
                    lemma_lookup(self@, name@, i as int);
                    lemma_with_series(self@, name@, labels@, value);
                }
                let mut found = false;
                match &mut self.instruments[i].readings {
                    Readings::Family(series) => {
                        put(series, labels, value);
                        found = true;
                    },
                    Readings::Scalar(_) => {},
                }
                if found {
                    proof {
                        assert forall|k: int| 0 <= k < self@.len() implies self@[k] == with_series(
                            old(self)@,
                            name@,
                            labels@,
                            value,
                        )[k] by {
                            if old(self)@[k].name == name@ {
                                lemma_lookup(old(self)@, name@, k);
                            }
                        }
                        assert(self@ =~= with_series(old(self)@, name@, labels@, value));
                    }
                    Ok(())
                } else {
                    assert(self@ =~= old(self)@);
                    Err(RegistryError::Mismatch)
                }
            },
        }
    }
}

/// Writes the gauge of `labels` in a family.
fn put(series: &mut Vec<Series>, labels: CpuLabels, value: u64)
    requires
        series_wf(series_views(old(series)@)),
    ensures
        series_views(final(series)@) == put_series(series_views(old(series)@), labels@, value),
{
    let ghost before = series_views(series@);
    let mut j: usize = 0;
    while j < series.len()
        invariant
            j <= series.len(),
            series@ == old(series)@,
            before == series_views(series@),
            series_wf(before),
            forall|k: int| 0 <= k < j ==> (#[trigger] before[k]).bucket != labels@,
        decreases series.len() - j,
    {
        if series[j].labels.same(&labels) {
            assert(before[j as int].bucket == labels@);
            series[j].value = value;
            proof {
                let after = series_views(series@);
                let expected = put_series(before, labels@, value);
                assert forall|k: int| 0 <= k < after.len() implies after[k] == expected[k] by {
                    if k != j {
                        if k < j {
                            assert(before[k].bucket != before[j as int].bucket);
                        } else {
                            assert(before[j as int].bucket != before[k].bucket);
                        }
                    }
                }
                assert(after =~= expected);
            }
            return ;
        }
        j = j + 1;
    }
    series.push(Series { labels, value });
    proof {
        assert(!has_bucket(before, labels@));
        assert(series_views(series@) =~= put_series(before, labels@, value));
    }
}

} // verus!
