//! The eDSL document read from its YAML text: how each part of a test plan is
//! read from a YAML value (see [`crate::decode`] for the rules), and the entry
//! points that parse a plan or a module file.
use vstd::prelude::*;
use crate::decode::{
    blank, count_at, count_of, count_ok, decimal_at, decimal_ok, entries, field, flag_at, flag_ok,
    list_ok, list_reads, mapping_entries, node_list_ok, node_list_reads, node_map_ok,
    node_map_reads, node_ok, node_reads, opt_count_u16, opt_count_u32, opt_decimal, opt_flag,
    opt_list, opt_node, opt_node_list, opt_node_map, opt_sub, opt_text, opt_text_list,
    opt_text_map, opt_u16, opt_u32, opt_view, repeated, req_count_ok, req_count_u32, req_text,
    req_text_at, req_text_ok, sub_ok, sub_reads, text_at, text_list_ok, text_list_reads,
    text_map_ok, text_map_reads, text_ok, Decode, Defect, defect_text, field_flaw, required_flaw, sub_flaw, list_flaw, invalid_text, no_variant_text, duplicate_text, missing_text, field_of, read_text, text_of, lemma_field_decreases, lemma_item_decreases,
};
use crate::dsl::{
    BusinessRule, Config, DataSource, Function, InlineStepBody, LatencyDistribution, LoopConfig,
    Metadata, MockBehavior, MockConfig, MockLatency, MockResponse, Output, RampUp, RampUpConfig,
    RetryConfig, Step, DoBlock, TestPlan, ModuleDefinition, TrackMetric, Transform, ValidationBlock, WithinConfig, WithinStructured,
};
use crate::text::owned;
use crate::value::{parse_yaml, yaml_parse, Node};

verus! {

// ---------------------------------------------------------------------------
// Untagged choices: the first form that fits
// ---------------------------------------------------------------------------

/// A ramp-up is a duration text, else a structured description.
impl Decode for RampUp {
    open spec fn ok(n: Node, strict: bool) -> bool {
        n is String || RampUpConfig::ok(n, true)
    }

    open spec fn reads(n: Node, strict: bool, x: RampUp) -> bool {
        match x {
            RampUp::Duration(d) => n matches Node::String(s) && d@ == s@,
            RampUp::Structured(c) => !(n is String) && RampUpConfig::reads(n, true, c),
        }
    }

    open spec fn flaw(n: Node, strict: bool) -> Seq<char> {
        no_variant_text("RampUp"@)
    }

    fn decode(n: &Node, strict: bool) -> (r: Result<RampUp, Defect>) {
        match n {
            Node::String(s) => Ok(RampUp::Duration(s.clone())),
            _ => match RampUpConfig::decode(n, true) {
                Ok(c) => Ok(RampUp::Structured(c)),
                Err(_) => Err(Defect::NoMatchingVariant(crate::text::owned("RampUp"))),
            },
        }
    }
}

/// A `within` constraint is a duration text, else a duration counted from a step.
impl Decode for WithinConfig {
    open spec fn ok(n: Node, strict: bool) -> bool {
        n is String || WithinStructured::ok(n, true)
    }

    open spec fn reads(n: Node, strict: bool, x: WithinConfig) -> bool {
        match x {
            WithinConfig::Duration(d) => n matches Node::String(s) && d@ == s@,
            WithinConfig::Structured(c) => !(n is String) && WithinStructured::reads(n, true, c),
        }
    }

    open spec fn flaw(n: Node, strict: bool) -> Seq<char> {
        no_variant_text("WithinConfig"@)
    }

    fn decode(n: &Node, strict: bool) -> (r: Result<WithinConfig, Defect>) {
        match n {
            Node::String(s) => Ok(WithinConfig::Duration(s.clone())),
            _ => match WithinStructured::decode(n, true) {
                Ok(c) => Ok(WithinConfig::Structured(c)),
                Err(_) => Err(Defect::NoMatchingVariant(crate::text::owned("WithinConfig"))),
            },
        }
    }
}

/// A mock latency is a fixed text, else a distribution.
impl Decode for MockLatency {
    open spec fn ok(n: Node, strict: bool) -> bool {
        n is String || LatencyDistribution::ok(n, true)
    }

    open spec fn reads(n: Node, strict: bool, x: MockLatency) -> bool {
        match x {
            MockLatency::Fixed(d) => n matches Node::String(s) && d@ == s@,
            MockLatency::Distribution(c) => !(n is String) && LatencyDistribution::reads(n, true, c),
        }
    }

    open spec fn flaw(n: Node, strict: bool) -> Seq<char> {
        no_variant_text("MockLatency"@)
    }

    fn decode(n: &Node, strict: bool) -> (r: Result<MockLatency, Defect>) {
        match n {
            Node::String(s) => Ok(MockLatency::Fixed(s.clone())),
            _ => match LatencyDistribution::decode(n, true) {
                Ok(c) => Ok(MockLatency::Distribution(c)),
                Err(_) => Err(Defect::NoMatchingVariant(crate::text::owned("MockLatency"))),
            },
        }
    }
}

// ---------------------------------------------------------------------------
// Records
// ---------------------------------------------------------------------------

/// A mapping of optional texts and tags.
impl Decode for Metadata {
    open spec fn ok(n: Node, strict: bool) -> bool {
        let es = entries(n);
        &&& n is Mapping
        &&& text_ok(es, "author"@, strict)
        &&& text_ok(es, "created"@, strict)
        &&& text_list_ok(es, "tags"@, strict)
    }

    open spec fn reads(n: Node, strict: bool, x: Metadata) -> bool {
        let es = entries(n);
        &&& opt_view(x.author) == text_at(es, "author"@, strict)
        &&& opt_view(x.created) == text_at(es, "created"@, strict)
        &&& text_list_reads(es, "tags"@, strict, x.tags)
    }

    open spec fn flaw(n: Node, strict: bool) -> Seq<char> {
        let es = entries(n);
        if !(n is Mapping) {
            invalid_text("Metadata"@)
        } else if !text_ok(es, "author"@, strict) {
            field_flaw(es, "author"@)
        } else if !text_ok(es, "created"@, strict) {
            field_flaw(es, "created"@)
        } else if !text_list_ok(es, "tags"@, strict) {
            field_flaw(es, "tags"@)
        } else {
            Seq::empty()
        }
    }

    fn decode(n: &Node, strict: bool) -> (r: Result<Metadata, Defect>) {
        let es = mapping_entries(n, "Metadata")?;
        let author = opt_text(es, "author", strict)?;
        let created = opt_text(es, "created", strict)?;
        let tags = opt_text_list(es, "tags", strict)?;
        Ok(Metadata { author, created, tags })
    }
}

/// A mapping with a strategy, a duration and an optional step count.
impl Decode for RampUpConfig {
    open spec fn ok(n: Node, strict: bool) -> bool {
        let es = entries(n);
        &&& n is Mapping
        &&& req_text_ok(es, "strategy"@, strict)
        &&& req_text_ok(es, "duration"@, strict)
        &&& count_ok(es, "steps"@, u32::MAX as int)
    }

    open spec fn reads(n: Node, strict: bool, x: RampUpConfig) -> bool {
        let es = entries(n);
        &&& x.strategy@ == req_text_at(es, "strategy"@, strict)
        &&& x.duration@ == req_text_at(es, "duration"@, strict)
        &&& opt_u32(x.steps) == count_at(es, "steps"@, u32::MAX as int)
    }

    open spec fn flaw(n: Node, strict: bool) -> Seq<char> {
        let es = entries(n);
        if !(n is Mapping) {
            invalid_text("RampUpConfig"@)
        } else if !req_text_ok(es, "strategy"@, strict) {
            required_flaw(es, "strategy"@)
        } else if !req_text_ok(es, "duration"@, strict) {
            required_flaw(es, "duration"@)
        } else if !count_ok(es, "steps"@, u32::MAX as int) {
            field_flaw(es, "steps"@)
        } else {
            Seq::empty()
        }
    }

    fn decode(n: &Node, strict: bool) -> (r: Result<RampUpConfig, Defect>) {
        let es = mapping_entries(n, "RampUpConfig")?;
        let strategy = req_text(es, "strategy", strict)?;
        let duration = req_text(es, "duration", strict)?;
        let steps = opt_count_u32(es, "steps")?;
        Ok(RampUpConfig { strategy, duration, steps })
    }
}

/// The execution configuration.
impl Decode for Config {
    open spec fn ok(n: Node, strict: bool) -> bool {
        let es = entries(n);
        &&& n is Mapping
        &&& text_ok(es, "mode"@, strict)
        &&& text_ok(es, "source"@, strict)
        &&& decimal_ok(es, "speed"@)
        &&& text_ok(es, "cron"@, strict)
        &&& text_ok(es, "duration"@, strict)
        &&& count_ok(es, "virtual_users"@, u32::MAX as int)
        &&& sub_ok::<RampUp>(es, "ramp_up"@, strict)
        &&& text_ok(es, "timeout"@, strict)
        &&& text_ok(es, "step_timeout"@, strict)
        &&& text_ok(es, "mock_strategy"@, strict)
    }

    open spec fn reads(n: Node, strict: bool, x: Config) -> bool {
        let es = entries(n);
        &&& opt_view(x.mode) == text_at(es, "mode"@, strict)
        &&& opt_view(x.source) == text_at(es, "source"@, strict)
        &&& opt_view(x.speed) == decimal_at(es, "speed"@)
        &&& opt_view(x.cron) == text_at(es, "cron"@, strict)
        &&& opt_view(x.duration) == text_at(es, "duration"@, strict)
        &&& opt_u32(x.virtual_users) == count_at(es, "virtual_users"@, u32::MAX as int)
        &&& sub_reads::<RampUp>(es, "ramp_up"@, strict, x.ramp_up)
        &&& opt_view(x.timeout) == text_at(es, "timeout"@, strict)
        &&& opt_view(x.step_timeout) == text_at(es, "step_timeout"@, strict)
        &&& opt_view(x.mock_strategy) == text_at(es, "mock_strategy"@, strict)
    }

    open spec fn flaw(n: Node, strict: bool) -> Seq<char> {
        let es = entries(n);
        if !(n is Mapping) {
            invalid_text("Config"@)
        } else if !text_ok(es, "mode"@, strict) {
            field_flaw(es, "mode"@)
        } else if !text_ok(es, "source"@, strict) {
            field_flaw(es, "source"@)
        } else if !decimal_ok(es, "speed"@) {
            field_flaw(es, "speed"@)
        } else if !text_ok(es, "cron"@, strict) {
            field_flaw(es, "cron"@)
        } else if !text_ok(es, "duration"@, strict) {
            field_flaw(es, "duration"@)
        } else if !count_ok(es, "virtual_users"@, u32::MAX as int) {
            field_flaw(es, "virtual_users"@)
        } else if !sub_ok::<RampUp>(es, "ramp_up"@, strict) {
            sub_flaw::<RampUp>(es, "ramp_up"@, strict)
        } else if !text_ok(es, "timeout"@, strict) {
            field_flaw(es, "timeout"@)
        } else if !text_ok(es, "step_timeout"@, strict) {
            field_flaw(es, "step_timeout"@)
        } else if !text_ok(es, "mock_strategy"@, strict) {
            field_flaw(es, "mock_strategy"@)
        } else {
            Seq::empty()
        }
    }

    fn decode(n: &Node, strict: bool) -> (r: Result<Config, Defect>) {
        let es = mapping_entries(n, "Config")?;
        let mode = opt_text(es, "mode", strict)?;
        let source = opt_text(es, "source", strict)?;
        let speed = opt_decimal(es, "speed")?;
        let cron = opt_text(es, "cron", strict)?;
        let duration = opt_text(es, "duration", strict)?;
        let virtual_users = opt_count_u32(es, "virtual_users")?;
        let ramp_up = opt_sub::<RampUp>(es, "ramp_up", strict)?;
        let timeout = opt_text(es, "timeout", strict)?;
        let step_timeout = opt_text(es, "step_timeout", strict)?;
        let mock_strategy = opt_text(es, "mock_strategy", strict)?;
        Ok(Config { mode, source, speed, cron, duration, virtual_users, ramp_up, timeout, step_timeout, mock_strategy })
    }
}

/// A named data source.
impl Decode for DataSource {
    open spec fn ok(n: Node, strict: bool) -> bool {
        let es = entries(n);
        &&& n is Mapping
        &&& req_text_ok(es, "name"@, strict)
        &&& text_ok(es, "source"@, strict)
        &&& text_ok(es, "generator"@, strict)
        &&& text_ok(es, "connection"@, strict)
        &&& text_ok(es, "query"@, strict)
        &&& text_ok(es, "path"@, strict)
        &&& text_ok(es, "sampling"@, strict)
        &&& flag_ok(es, "cache"@)
        &&& text_map_ok(es, "fields"@, strict)
    }

    open spec fn reads(n: Node, strict: bool, x: DataSource) -> bool {
        let es = entries(n);
        &&& x.name@ == req_text_at(es, "name"@, strict)
        &&& opt_view(x.source) == text_at(es, "source"@, strict)
        &&& opt_view(x.generator) == text_at(es, "generator"@, strict)
        &&& opt_view(x.connection) == text_at(es, "connection"@, strict)
        &&& opt_view(x.query) == text_at(es, "query"@, strict)
        &&& opt_view(x.path) == text_at(es, "path"@, strict)
        &&& opt_view(x.sampling) == text_at(es, "sampling"@, strict)
        &&& x.cache == flag_at(es, "cache"@)
        &&& text_map_reads(es, "fields"@, strict, x.fields)
    }

    open spec fn flaw(n: Node, strict: bool) -> Seq<char> {
        let es = entries(n);
        if !(n is Mapping) {
            invalid_text("DataSource"@)
        } else if !req_text_ok(es, "name"@, strict) {
            required_flaw(es, "name"@)
        } else if !text_ok(es, "source"@, strict) {
            field_flaw(es, "source"@)
        } else if !text_ok(es, "generator"@, strict) {
            field_flaw(es, "generator"@)
        } else if !text_ok(es, "connection"@, strict) {
            field_flaw(es, "connection"@)
        } else if !text_ok(es, "query"@, strict) {
            field_flaw(es, "query"@)
        } else if !text_ok(es, "path"@, strict) {
            field_flaw(es, "path"@)
        } else if !text_ok(es, "sampling"@, strict) {
            field_flaw(es, "sampling"@)
        } else if !flag_ok(es, "cache"@) {
            field_flaw(es, "cache"@)
        } else if !text_map_ok(es, "fields"@, strict) {
            field_flaw(es, "fields"@)
        } else {
            Seq::empty()
        }
    }

    fn decode(n: &Node, strict: bool) -> (r: Result<DataSource, Defect>) {
        let es = mapping_entries(n, "DataSource")?;
        let name = req_text(es, "name", strict)?;
        let source = opt_text(es, "source", strict)?;
        let generator = opt_text(es, "generator", strict)?;
        let connection = opt_text(es, "connection", strict)?;
        let query = opt_text(es, "query", strict)?;
        let path = opt_text(es, "path", strict)?;
        let sampling = opt_text(es, "sampling", strict)?;
        let cache = opt_flag(es, "cache")?;
        let fields = opt_text_map(es, "fields", strict)?;
        Ok(DataSource { name, source, generator, connection, query, path, sampling, cache, fields })
    }
}

/// Loop control.
impl Decode for LoopConfig {
    open spec fn ok(n: Node, strict: bool) -> bool {
        let es = entries(n);
        &&& n is Mapping
        &&& node_ok(es, "count"@)
        &&& text_ok(es, "over"@, strict)
        &&& text_ok(es, "from"@, strict)
    }

    open spec fn reads(n: Node, strict: bool, x: LoopConfig) -> bool {
        let es = entries(n);
        &&& node_reads(es, "count"@, x.count)
        &&& opt_view(x.over) == text_at(es, "over"@, strict)
        &&& opt_view(x.from) == text_at(es, "from"@, strict)
    }

    open spec fn flaw(n: Node, strict: bool) -> Seq<char> {
        let es = entries(n);
        if !(n is Mapping) {
            invalid_text("LoopConfig"@)
        } else if !node_ok(es, "count"@) {
            field_flaw(es, "count"@)
        } else if !text_ok(es, "over"@, strict) {
            field_flaw(es, "over"@)
        } else if !text_ok(es, "from"@, strict) {
            field_flaw(es, "from"@)
        } else {
            Seq::empty()
        }
    }

    fn decode(n: &Node, strict: bool) -> (r: Result<LoopConfig, Defect>) {
        let es = mapping_entries(n, "LoopConfig")?;
        let count = opt_node(es, "count")?;
        let over = opt_text(es, "over", strict)?;
        let from = opt_text(es, "from", strict)?;
        Ok(LoopConfig { count, over, from })
    }
}

/// Protocol fields written inside a `do` block.
impl Decode for InlineStepBody {
    open spec fn ok(n: Node, strict: bool) -> bool {
        let es = entries(n);
        &&& n is Mapping
        &&& text_ok(es, "protocol"@, strict)
        &&& text_ok(es, "endpoint"@, strict)
        &&& text_ok(es, "method"@, strict)
        &&& text_map_ok(es, "headers"@, strict)
        &&& node_ok(es, "body"@)
    }

    open spec fn reads(n: Node, strict: bool, x: InlineStepBody) -> bool {
        let es = entries(n);
        &&& opt_view(x.protocol) == text_at(es, "protocol"@, strict)
        &&& opt_view(x.endpoint) == text_at(es, "endpoint"@, strict)
        &&& opt_view(x.method) == text_at(es, "method"@, strict)
        &&& text_map_reads(es, "headers"@, strict, x.headers)
        &&& node_reads(es, "body"@, x.body)
    }

    open spec fn flaw(n: Node, strict: bool) -> Seq<char> {
        let es = entries(n);
        if !(n is Mapping) {
            invalid_text("InlineStepBody"@)
        } else if !text_ok(es, "protocol"@, strict) {
            field_flaw(es, "protocol"@)
        } else if !text_ok(es, "endpoint"@, strict) {
            field_flaw(es, "endpoint"@)
        } else if !text_ok(es, "method"@, strict) {
            field_flaw(es, "method"@)
        } else if !text_map_ok(es, "headers"@, strict) {
            field_flaw(es, "headers"@)
        } else if !node_ok(es, "body"@) {
            field_flaw(es, "body"@)
        } else {
            Seq::empty()
        }
    }

    fn decode(n: &Node, strict: bool) -> (r: Result<InlineStepBody, Defect>) {
        let es = mapping_entries(n, "InlineStepBody")?;
        let protocol = opt_text(es, "protocol", strict)?;
        let endpoint = opt_text(es, "endpoint", strict)?;
        let method = opt_text(es, "method", strict)?;
        let headers = opt_text_map(es, "headers", strict)?;
        let body = opt_node(es, "body")?;
        Ok(InlineStepBody { protocol, endpoint, method, headers, body })
    }
}

/// A retry policy.
impl Decode for RetryConfig {
    open spec fn ok(n: Node, strict: bool) -> bool {
        let es = entries(n);
        &&& n is Mapping
        &&& req_count_ok(es, "max_attempts"@)
        &&& text_ok(es, "backoff"@, strict)
        &&& text_ok(es, "delay"@, strict)
    }

    open spec fn reads(n: Node, strict: bool, x: RetryConfig) -> bool {
        let es = entries(n);
        &&& Some(x.max_attempts as int) == count_of(field(es, "max_attempts"@).unwrap(), u32::MAX as int)
        &&& opt_view(x.backoff) == text_at(es, "backoff"@, strict)
        &&& opt_view(x.delay) == text_at(es, "delay"@, strict)
    }

    open spec fn flaw(n: Node, strict: bool) -> Seq<char> {
        let es = entries(n);
        if !(n is Mapping) {
            invalid_text("RetryConfig"@)
        } else if !req_count_ok(es, "max_attempts"@) {
            required_flaw(es, "max_attempts"@)
        } else if !text_ok(es, "backoff"@, strict) {
            field_flaw(es, "backoff"@)
        } else if !text_ok(es, "delay"@, strict) {
            field_flaw(es, "delay"@)
        } else {
            Seq::empty()
        }
    }

    fn decode(n: &Node, strict: bool) -> (r: Result<RetryConfig, Defect>) {
        let es = mapping_entries(n, "RetryConfig")?;
        let max_attempts = req_count_u32(es, "max_attempts")?;
        let backoff = opt_text(es, "backoff", strict)?;
        let delay = opt_text(es, "delay", strict)?;
        Ok(RetryConfig { max_attempts, backoff, delay })
    }
}

/// A duration counted from an optional step.
impl Decode for WithinStructured {
    open spec fn ok(n: Node, strict: bool) -> bool {
        let es = entries(n);
        &&& n is Mapping
        &&& req_text_ok(es, "duration"@, strict)
        &&& text_ok(es, "since"@, strict)
    }

    open spec fn reads(n: Node, strict: bool, x: WithinStructured) -> bool {
        let es = entries(n);
        &&& x.duration@ == req_text_at(es, "duration"@, strict)
        &&& opt_view(x.since) == text_at(es, "since"@, strict)
    }

    open spec fn flaw(n: Node, strict: bool) -> Seq<char> {
        let es = entries(n);
        if !(n is Mapping) {
            invalid_text("WithinStructured"@)
        } else if !req_text_ok(es, "duration"@, strict) {
            required_flaw(es, "duration"@)
        } else if !text_ok(es, "since"@, strict) {
            field_flaw(es, "since"@)
        } else {
            Seq::empty()
        }
    }

    fn decode(n: &Node, strict: bool) -> (r: Result<WithinStructured, Defect>) {
        let es = mapping_entries(n, "WithinStructured")?;
        let duration = req_text(es, "duration", strict)?;
        let since = opt_text(es, "since", strict)?;
        Ok(WithinStructured { duration, since })
    }
}

/// A business metric.
impl Decode for TrackMetric {
    open spec fn ok(n: Node, strict: bool) -> bool {
        let es = entries(n);
        &&& n is Mapping
        &&& req_text_ok(es, "name"@, strict)
        &&& req_text_ok(es, "value"@, strict)
        &&& text_map_ok(es, "dimensions"@, strict)
    }

    open spec fn reads(n: Node, strict: bool, x: TrackMetric) -> bool {
        let es = entries(n);
        &&& x.name@ == req_text_at(es, "name"@, strict)
        &&& x.value@ == req_text_at(es, "value"@, strict)
        &&& text_map_reads(es, "dimensions"@, strict, x.dimensions)
    }

    open spec fn flaw(n: Node, strict: bool) -> Seq<char> {
        let es = entries(n);
        if !(n is Mapping) {
            invalid_text("TrackMetric"@)
        } else if !req_text_ok(es, "name"@, strict) {
            required_flaw(es, "name"@)
        } else if !req_text_ok(es, "value"@, strict) {
            required_flaw(es, "value"@)
        } else if !text_map_ok(es, "dimensions"@, strict) {
            field_flaw(es, "dimensions"@)
        } else {
            Seq::empty()
        }
    }

    fn decode(n: &Node, strict: bool) -> (r: Result<TrackMetric, Defect>) {
        let es = mapping_entries(n, "TrackMetric")?;
        let name = req_text(es, "name", strict)?;
        let value = req_text(es, "value", strict)?;
        let dimensions = opt_text_map(es, "dimensions", strict)?;
        Ok(TrackMetric { name, value, dimensions })
    }
}

/// A function definition.
impl Decode for Function {
    open spec fn ok(n: Node, strict: bool) -> bool {
        let es = entries(n);
        &&& n is Mapping
        &&& req_text_ok(es, "name"@, strict)
        &&& req_text_ok(es, "language"@, strict)
        &&& req_text_ok(es, "source"@, strict)
    }

    open spec fn reads(n: Node, strict: bool, x: Function) -> bool {
        let es = entries(n);
        &&& x.name@ == req_text_at(es, "name"@, strict)
        &&& x.language@ == req_text_at(es, "language"@, strict)
        &&& x.source@ == req_text_at(es, "source"@, strict)
    }

    open spec fn flaw(n: Node, strict: bool) -> Seq<char> {
        let es = entries(n);
        if !(n is Mapping) {
            invalid_text("Function"@)
        } else if !req_text_ok(es, "name"@, strict) {
            required_flaw(es, "name"@)
        } else if !req_text_ok(es, "language"@, strict) {
            required_flaw(es, "language"@)
        } else if !req_text_ok(es, "source"@, strict) {
            required_flaw(es, "source"@)
        } else {
            Seq::empty()
        }
    }

    fn decode(n: &Node, strict: bool) -> (r: Result<Function, Defect>) {
        let es = mapping_entries(n, "Function")?;
        let name = req_text(es, "name", strict)?;
        let language = req_text(es, "language", strict)?;
        let source = req_text(es, "source", strict)?;
        Ok(Function { name, language, source })
    }
}

/// A transformation stage.
impl Decode for Transform {
    open spec fn ok(n: Node, strict: bool) -> bool {
        let es = entries(n);
        &&& n is Mapping
        &&& req_text_ok(es, "input"@, strict)
        &&& req_text_ok(es, "function"@, strict)
        &&& node_map_ok(es, "params"@, strict)
        &&& req_text_ok(es, "output_to"@, strict)
    }

    open spec fn reads(n: Node, strict: bool, x: Transform) -> bool {
        let es = entries(n);
        &&& x.input@ == req_text_at(es, "input"@, strict)
        &&& x.function@ == req_text_at(es, "function"@, strict)
        &&& node_map_reads(es, "params"@, strict, x.params)
        &&& x.output_to@ == req_text_at(es, "output_to"@, strict)
    }

    open spec fn flaw(n: Node, strict: bool) -> Seq<char> {
        let es = entries(n);
        if !(n is Mapping) {
            invalid_text("Transform"@)
        } else if !req_text_ok(es, "input"@, strict) {
            required_flaw(es, "input"@)
        } else if !req_text_ok(es, "function"@, strict) {
            required_flaw(es, "function"@)
        } else if !node_map_ok(es, "params"@, strict) {
            field_flaw(es, "params"@)
        } else if !req_text_ok(es, "output_to"@, strict) {
            required_flaw(es, "output_to"@)
        } else {
            Seq::empty()
        }
    }

    fn decode(n: &Node, strict: bool) -> (r: Result<Transform, Defect>) {
        let es = mapping_entries(n, "Transform")?;
        let input = req_text(es, "input", strict)?;
        let function = req_text(es, "function", strict)?;
        let params = opt_node_map(es, "params", strict)?;
        let output_to = req_text(es, "output_to", strict)?;
        Ok(Transform { input, function, params, output_to })
    }
}

/// A business rule.
impl Decode for BusinessRule {
    open spec fn ok(n: Node, strict: bool) -> bool {
        let es = entries(n);
        &&& n is Mapping
        &&& req_text_ok(es, "name"@, strict)
        &&& decimal_ok(es, "threshold"@)
        &&& req_text_ok(es, "actual"@, strict)
    }

    open spec fn reads(n: Node, strict: bool, x: BusinessRule) -> bool {
        let es = entries(n);
        &&& x.name@ == req_text_at(es, "name"@, strict)
        &&& opt_view(x.threshold) == decimal_at(es, "threshold"@)
        &&& x.actual@ == req_text_at(es, "actual"@, strict)
    }

    open spec fn flaw(n: Node, strict: bool) -> Seq<char> {
        let es = entries(n);
        if !(n is Mapping) {
            invalid_text("BusinessRule"@)
        } else if !req_text_ok(es, "name"@, strict) {
            required_flaw(es, "name"@)
        } else if !decimal_ok(es, "threshold"@) {
            field_flaw(es, "threshold"@)
        } else if !req_text_ok(es, "actual"@, strict) {
            required_flaw(es, "actual"@)
        } else {
            Seq::empty()
        }
    }

    fn decode(n: &Node, strict: bool) -> (r: Result<BusinessRule, Defect>) {
        let es = mapping_entries(n, "BusinessRule")?;
        let name = req_text(es, "name", strict)?;
        let threshold = opt_decimal(es, "threshold")?;
        let actual = req_text(es, "actual", strict)?;
        Ok(BusinessRule { name, threshold, actual })
    }
}

/// The global validation block.
impl Decode for ValidationBlock {
    open spec fn ok(n: Node, strict: bool) -> bool {
        let es = entries(n);
        &&& n is Mapping
        &&& list_ok::<BusinessRule>(es, "business_rules"@, strict)
    }

    open spec fn reads(n: Node, strict: bool, x: ValidationBlock) -> bool {
        let es = entries(n);
        &&& list_reads::<BusinessRule>(es, "business_rules"@, strict, x.business_rules)
    }

    open spec fn flaw(n: Node, strict: bool) -> Seq<char> {
        let es = entries(n);
        if !(n is Mapping) {
            invalid_text("ValidationBlock"@)
        } else if !list_ok::<BusinessRule>(es, "business_rules"@, strict) {
            list_flaw::<BusinessRule>(es, "business_rules"@, strict)
        } else {
            Seq::empty()
        }
    }

    fn decode(n: &Node, strict: bool) -> (r: Result<ValidationBlock, Defect>) {
        let es = mapping_entries(n, "ValidationBlock")?;
        let business_rules = opt_list::<BusinessRule>(es, "business_rules", strict)?;
        Ok(ValidationBlock { business_rules })
    }
}

/// An export destination.
impl Decode for Output {
    open spec fn ok(n: Node, strict: bool) -> bool {
        let es = entries(n);
        &&& n is Mapping
        &&& req_text_ok(es, "format"@, strict)
        &&& text_ok(es, "endpoint"@, strict)
        &&& text_ok(es, "file"@, strict)
        &&& text_ok(es, "api_key"@, strict)
    }

    open spec fn reads(n: Node, strict: bool, x: Output) -> bool {
        let es = entries(n);
        &&& x.format@ == req_text_at(es, "format"@, strict)
        &&& opt_view(x.endpoint) == text_at(es, "endpoint"@, strict)
        &&& opt_view(x.file) == text_at(es, "file"@, strict)
        &&& opt_view(x.api_key) == text_at(es, "api_key"@, strict)
    }

    open spec fn flaw(n: Node, strict: bool) -> Seq<char> {
        let es = entries(n);
        if !(n is Mapping) {
            invalid_text("Output"@)
        } else if !req_text_ok(es, "format"@, strict) {
            required_flaw(es, "format"@)
        } else if !text_ok(es, "endpoint"@, strict) {
            field_flaw(es, "endpoint"@)
        } else if !text_ok(es, "file"@, strict) {
            field_flaw(es, "file"@)
        } else if !text_ok(es, "api_key"@, strict) {
            field_flaw(es, "api_key"@)
        } else {
            Seq::empty()
        }
    }

    fn decode(n: &Node, strict: bool) -> (r: Result<Output, Defect>) {
        let es = mapping_entries(n, "Output")?;
        let format = req_text(es, "format", strict)?;
        let endpoint = opt_text(es, "endpoint", strict)?;
        let file = opt_text(es, "file", strict)?;
        let api_key = opt_text(es, "api_key", strict)?;
        Ok(Output { format, endpoint, file, api_key })
    }
}

/// A synthetic response.
impl Decode for MockResponse {
    open spec fn ok(n: Node, strict: bool) -> bool {
        let es = entries(n);
        &&& n is Mapping
        &&& count_ok(es, "status"@, u16::MAX as int)
        &&& text_map_ok(es, "headers"@, strict)
        &&& node_ok(es, "body"@)
        &&& text_ok(es, "latency"@, strict)
        &&& node_ok(es, "message"@)
        &&& text_ok(es, "delay"@, strict)
        &&& node_list_ok(es, "rows"@)
    }

    open spec fn reads(n: Node, strict: bool, x: MockResponse) -> bool {
        let es = entries(n);
        &&& opt_u16(x.status) == count_at(es, "status"@, u16::MAX as int)
        &&& text_map_reads(es, "headers"@, strict, x.headers)
        &&& node_reads(es, "body"@, x.body)
        &&& opt_view(x.latency) == text_at(es, "latency"@, strict)
        &&& node_reads(es, "message"@, x.message)
        &&& opt_view(x.delay) == text_at(es, "delay"@, strict)
        &&& node_list_reads(es, "rows"@, x.rows)
    }

    open spec fn flaw(n: Node, strict: bool) -> Seq<char> {
        let es = entries(n);
        if !(n is Mapping) {
            invalid_text("MockResponse"@)
        } else if !count_ok(es, "status"@, u16::MAX as int) {
            field_flaw(es, "status"@)
        } else if !text_map_ok(es, "headers"@, strict) {
            field_flaw(es, "headers"@)
        } else if !node_ok(es, "body"@) {
            field_flaw(es, "body"@)
        } else if !text_ok(es, "latency"@, strict) {
            field_flaw(es, "latency"@)
        } else if !node_ok(es, "message"@) {
            field_flaw(es, "message"@)
        } else if !text_ok(es, "delay"@, strict) {
            field_flaw(es, "delay"@)
        } else if !node_list_ok(es, "rows"@) {
            field_flaw(es, "rows"@)
        } else {
            Seq::empty()
        }
    }

    fn decode(n: &Node, strict: bool) -> (r: Result<MockResponse, Defect>) {
        let es = mapping_entries(n, "MockResponse")?;
        let status = opt_count_u16(es, "status")?;
        let headers = opt_text_map(es, "headers", strict)?;
        let body = opt_node(es, "body")?;
        let latency = opt_text(es, "latency", strict)?;
        let message = opt_node(es, "message")?;
        let delay = opt_text(es, "delay", strict)?;
        let rows = opt_node_list(es, "rows")?;
        Ok(MockResponse { status, headers, body, latency, message, delay, rows })
    }
}

/// Failure injection controls.
impl Decode for MockBehavior {
    open spec fn ok(n: Node, strict: bool) -> bool {
        let es = entries(n);
        &&& n is Mapping
        &&& decimal_ok(es, "error_rate"@)
        &&& sub_ok::<MockResponse>(es, "error_response"@, strict)
        &&& sub_ok::<MockLatency>(es, "latency"@, strict)
        &&& decimal_ok(es, "timeout_rate"@)
    }

    open spec fn reads(n: Node, strict: bool, x: MockBehavior) -> bool {
        let es = entries(n);
        &&& opt_view(x.error_rate) == decimal_at(es, "error_rate"@)
        &&& sub_reads::<MockResponse>(es, "error_response"@, strict, x.error_response)
        &&& sub_reads::<MockLatency>(es, "latency"@, strict, x.latency)
        &&& opt_view(x.timeout_rate) == decimal_at(es, "timeout_rate"@)
    }

    open spec fn flaw(n: Node, strict: bool) -> Seq<char> {
        let es = entries(n);
        if !(n is Mapping) {
            invalid_text("MockBehavior"@)
        } else if !decimal_ok(es, "error_rate"@) {
            field_flaw(es, "error_rate"@)
        } else if !sub_ok::<MockResponse>(es, "error_response"@, strict) {
            sub_flaw::<MockResponse>(es, "error_response"@, strict)
        } else if !sub_ok::<MockLatency>(es, "latency"@, strict) {
            sub_flaw::<MockLatency>(es, "latency"@, strict)
        } else if !decimal_ok(es, "timeout_rate"@) {
            field_flaw(es, "timeout_rate"@)
        } else {
            Seq::empty()
        }
    }

    fn decode(n: &Node, strict: bool) -> (r: Result<MockBehavior, Defect>) {
        let es = mapping_entries(n, "MockBehavior")?;
        let error_rate = opt_decimal(es, "error_rate")?;
        let error_response = opt_sub::<MockResponse>(es, "error_response", strict)?;
        let latency = opt_sub::<MockLatency>(es, "latency", strict)?;
        let timeout_rate = opt_decimal(es, "timeout_rate")?;
        Ok(MockBehavior { error_rate, error_response, latency, timeout_rate })
    }
}

/// A latency distribution.
impl Decode for LatencyDistribution {
    open spec fn ok(n: Node, strict: bool) -> bool {
        let es = entries(n);
        &&& n is Mapping
        &&& req_text_ok(es, "distribution"@, strict)
        &&& text_ok(es, "mean"@, strict)
        &&& text_ok(es, "stddev"@, strict)
        &&& text_ok(es, "min"@, strict)
        &&& text_ok(es, "max"@, strict)
    }

    open spec fn reads(n: Node, strict: bool, x: LatencyDistribution) -> bool {
        let es = entries(n);
        &&& x.distribution@ == req_text_at(es, "distribution"@, strict)
        &&& opt_view(x.mean) == text_at(es, "mean"@, strict)
        &&& opt_view(x.stddev) == text_at(es, "stddev"@, strict)
        &&& opt_view(x.min) == text_at(es, "min"@, strict)
        &&& opt_view(x.max) == text_at(es, "max"@, strict)
    }

    open spec fn flaw(n: Node, strict: bool) -> Seq<char> {
        let es = entries(n);
        if !(n is Mapping) {
            invalid_text("LatencyDistribution"@)
        } else if !req_text_ok(es, "distribution"@, strict) {
            required_flaw(es, "distribution"@)
        } else if !text_ok(es, "mean"@, strict) {
            field_flaw(es, "mean"@)
        } else if !text_ok(es, "stddev"@, strict) {
            field_flaw(es, "stddev"@)
        } else if !text_ok(es, "min"@, strict) {
            field_flaw(es, "min"@)
        } else if !text_ok(es, "max"@, strict) {
            field_flaw(es, "max"@)
        } else {
            Seq::empty()
        }
    }

    fn decode(n: &Node, strict: bool) -> (r: Result<LatencyDistribution, Defect>) {
        let es = mapping_entries(n, "LatencyDistribution")?;
        let distribution = req_text(es, "distribution", strict)?;
        let mean = opt_text(es, "mean", strict)?;
        let stddev = opt_text(es, "stddev", strict)?;
        let min = opt_text(es, "min", strict)?;
        let max = opt_text(es, "max", strict)?;
        Ok(LatencyDistribution { distribution, mean, stddev, min, max })
    }
}

/// The mock of a step.
impl Decode for MockConfig {
    open spec fn ok(n: Node, strict: bool) -> bool {
        let es = entries(n);
        &&& n is Mapping
        &&& sub_ok::<MockResponse>(es, "response"@, strict)
        &&& list_ok::<MockResponse>(es, "responses"@, strict)
        &&& text_ok(es, "on_exhausted"@, strict)
        &&& sub_ok::<MockBehavior>(es, "behavior"@, strict)
        &&& node_ok(es, "request_schema"@)
        &&& node_ok(es, "response_schema"@)
    }

    open spec fn reads(n: Node, strict: bool, x: MockConfig) -> bool {
        let es = entries(n);
        &&& sub_reads::<MockResponse>(es, "response"@, strict, x.response)
        &&& list_reads::<MockResponse>(es, "responses"@, strict, x.responses)
        &&& opt_view(x.on_exhausted) == text_at(es, "on_exhausted"@, strict)
        &&& sub_reads::<MockBehavior>(es, "behavior"@, strict, x.behavior)
        &&& node_reads(es, "request_schema"@, x.request_schema)
        &&& node_reads(es, "response_schema"@, x.response_schema)
    }

    open spec fn flaw(n: Node, strict: bool) -> Seq<char> {
        let es = entries(n);
        if !(n is Mapping) {
            invalid_text("MockConfig"@)
        } else if !sub_ok::<MockResponse>(es, "response"@, strict) {
            sub_flaw::<MockResponse>(es, "response"@, strict)
        } else if !list_ok::<MockResponse>(es, "responses"@, strict) {
            list_flaw::<MockResponse>(es, "responses"@, strict)
        } else if !text_ok(es, "on_exhausted"@, strict) {
            field_flaw(es, "on_exhausted"@)
        } else if !sub_ok::<MockBehavior>(es, "behavior"@, strict) {
            sub_flaw::<MockBehavior>(es, "behavior"@, strict)
        } else if !node_ok(es, "request_schema"@) {
            field_flaw(es, "request_schema"@)
        } else if !node_ok(es, "response_schema"@) {
            field_flaw(es, "response_schema"@)
        } else {
            Seq::empty()
        }
    }

    fn decode(n: &Node, strict: bool) -> (r: Result<MockConfig, Defect>) {
        let es = mapping_entries(n, "MockConfig")?;
        let response = opt_sub::<MockResponse>(es, "response", strict)?;
        let responses = opt_list::<MockResponse>(es, "responses", strict)?;
        let on_exhausted = opt_text(es, "on_exhausted", strict)?;
        let behavior = opt_sub::<MockBehavior>(es, "behavior", strict)?;
        let request_schema = opt_node(es, "request_schema")?;
        let response_schema = opt_node(es, "response_schema")?;
        Ok(MockConfig { response, responses, on_exhausted, behavior, request_schema, response_schema })
    }
}

// ---------------------------------------------------------------------------
// Fields come from their own keys
// ---------------------------------------------------------------------------

/// Each part of a read `RampUp` comes from the key of its own name (or, for a
/// choice of forms, from the form that the value has).
pub proof fn lemma_ramp_up_fields(n: Node, strict: bool, x: RampUp)
    requires
        RampUp::reads(n, strict, x),
    ensures
        ({
            match x {
                RampUp::Duration(d) => n matches Node::String(s) && d@ == s@,
                RampUp::Structured(c) => !(n is String) && RampUpConfig::reads(n, true, c),
            }
        }),
{
}

/// Each part of a read `WithinConfig` comes from the key of its own name (or, for a
/// choice of forms, from the form that the value has).
pub proof fn lemma_within_config_fields(n: Node, strict: bool, x: WithinConfig)
    requires
        WithinConfig::reads(n, strict, x),
    ensures
        ({
            match x {
                WithinConfig::Duration(d) => n matches Node::String(s) && d@ == s@,
                WithinConfig::Structured(c) => !(n is String) && WithinStructured::reads(n, true, c),
            }
        }),
{
}

/// Each part of a read `MockLatency` comes from the key of its own name (or, for a
/// choice of forms, from the form that the value has).
pub proof fn lemma_mock_latency_fields(n: Node, strict: bool, x: MockLatency)
    requires
        MockLatency::reads(n, strict, x),
    ensures
        ({
            match x {
                MockLatency::Fixed(d) => n matches Node::String(s) && d@ == s@,
                MockLatency::Distribution(c) => !(n is String) && LatencyDistribution::reads(n, true, c),
            }
        }),
{
}

/// Each part of a read `Metadata` comes from the key of its own name (or, for a
/// choice of forms, from the form that the value has).
pub proof fn lemma_metadata_fields(n: Node, strict: bool, x: Metadata)
    requires
        Metadata::reads(n, strict, x),
    ensures
        ({
            let es = entries(n);
            &&& opt_view(x.author) == text_at(es, "author"@, strict)
            &&& opt_view(x.created) == text_at(es, "created"@, strict)
            &&& text_list_reads(es, "tags"@, strict, x.tags)
        }),
{
}

/// Each part of a read `RampUpConfig` comes from the key of its own name (or, for a
/// choice of forms, from the form that the value has).
pub proof fn lemma_ramp_up_config_fields(n: Node, strict: bool, x: RampUpConfig)
    requires
        RampUpConfig::reads(n, strict, x),
    ensures
        ({
            let es = entries(n);
            &&& x.strategy@ == req_text_at(es, "strategy"@, strict)
            &&& x.duration@ == req_text_at(es, "duration"@, strict)
            &&& opt_u32(x.steps) == count_at(es, "steps"@, u32::MAX as int)
        }),
{
}

/// Each part of a read `Config` comes from the key of its own name (or, for a
/// choice of forms, from the form that the value has).
pub proof fn lemma_config_fields(n: Node, strict: bool, x: Config)
    requires
        Config::reads(n, strict, x),
    ensures
        ({
            let es = entries(n);
            &&& opt_view(x.mode) == text_at(es, "mode"@, strict)
            &&& opt_view(x.source) == text_at(es, "source"@, strict)
            &&& opt_view(x.speed) == decimal_at(es, "speed"@)
            &&& opt_view(x.cron) == text_at(es, "cron"@, strict)
            &&& opt_view(x.duration) == text_at(es, "duration"@, strict)
            &&& opt_u32(x.virtual_users) == count_at(es, "virtual_users"@, u32::MAX as int)
            &&& sub_reads::<RampUp>(es, "ramp_up"@, strict, x.ramp_up)
            &&& opt_view(x.timeout) == text_at(es, "timeout"@, strict)
            &&& opt_view(x.step_timeout) == text_at(es, "step_timeout"@, strict)
            &&& opt_view(x.mock_strategy) == text_at(es, "mock_strategy"@, strict)
        }),
{
}

/// Each part of a read `DataSource` comes from the key of its own name (or, for a
/// choice of forms, from the form that the value has).
pub proof fn lemma_data_source_fields(n: Node, strict: bool, x: DataSource)
    requires
        DataSource::reads(n, strict, x),
    ensures
        ({
            let es = entries(n);
            &&& x.name@ == req_text_at(es, "name"@, strict)
            &&& opt_view(x.source) == text_at(es, "source"@, strict)
            &&& opt_view(x.generator) == text_at(es, "generator"@, strict)
            &&& opt_view(x.connection) == text_at(es, "connection"@, strict)
            &&& opt_view(x.query) == text_at(es, "query"@, strict)
            &&& opt_view(x.path) == text_at(es, "path"@, strict)
            &&& opt_view(x.sampling) == text_at(es, "sampling"@, strict)
            &&& x.cache == flag_at(es, "cache"@)
            &&& text_map_reads(es, "fields"@, strict, x.fields)
        }),
{
}

/// Each part of a read `LoopConfig` comes from the key of its own name (or, for a
/// choice of forms, from the form that the value has).
pub proof fn lemma_loop_config_fields(n: Node, strict: bool, x: LoopConfig)
    requires
        LoopConfig::reads(n, strict, x),
    ensures
        ({
            let es = entries(n);
            &&& node_reads(es, "count"@, x.count)
            &&& opt_view(x.over) == text_at(es, "over"@, strict)
            &&& opt_view(x.from) == text_at(es, "from"@, strict)
        }),
{
}

/// Each part of a read `InlineStepBody` comes from the key of its own name (or, for a
/// choice of forms, from the form that the value has).
pub proof fn lemma_inline_step_body_fields(n: Node, strict: bool, x: InlineStepBody)
    requires
        InlineStepBody::reads(n, strict, x),
    ensures
        ({
            let es = entries(n);
            &&& opt_view(x.protocol) == text_at(es, "protocol"@, strict)
            &&& opt_view(x.endpoint) == text_at(es, "endpoint"@, strict)
            &&& opt_view(x.method) == text_at(es, "method"@, strict)
            &&& text_map_reads(es, "headers"@, strict, x.headers)
            &&& node_reads(es, "body"@, x.body)
        }),
{
}

/// Each part of a read `RetryConfig` comes from the key of its own name (or, for a
/// choice of forms, from the form that the value has).
pub proof fn lemma_retry_config_fields(n: Node, strict: bool, x: RetryConfig)
    requires
        RetryConfig::reads(n, strict, x),
    ensures
        ({
            let es = entries(n);
            &&& Some(x.max_attempts as int) == count_of(field(es, "max_attempts"@).unwrap(), u32::MAX as int)
            &&& opt_view(x.backoff) == text_at(es, "backoff"@, strict)
            &&& opt_view(x.delay) == text_at(es, "delay"@, strict)
        }),
{
}

/// Each part of a read `WithinStructured` comes from the key of its own name (or, for a
/// choice of forms, from the form that the value has).
pub proof fn lemma_within_structured_fields(n: Node, strict: bool, x: WithinStructured)
    requires
        WithinStructured::reads(n, strict, x),
    ensures
        ({
            let es = entries(n);
            &&& x.duration@ == req_text_at(es, "duration"@, strict)
            &&& opt_view(x.since) == text_at(es, "since"@, strict)
        }),
{
}

/// Each part of a read `TrackMetric` comes from the key of its own name (or, for a
/// choice of forms, from the form that the value has).
pub proof fn lemma_track_metric_fields(n: Node, strict: bool, x: TrackMetric)
    requires
        TrackMetric::reads(n, strict, x),
    ensures
        ({
            let es = entries(n);
            &&& x.name@ == req_text_at(es, "name"@, strict)
            &&& x.value@ == req_text_at(es, "value"@, strict)
            &&& text_map_reads(es, "dimensions"@, strict, x.dimensions)
        }),
{
}

/// Each part of a read `Function` comes from the key of its own name (or, for a
/// choice of forms, from the form that the value has).
pub proof fn lemma_function_fields(n: Node, strict: bool, x: Function)
    requires
        Function::reads(n, strict, x),
    ensures
        ({
            let es = entries(n);
            &&& x.name@ == req_text_at(es, "name"@, strict)
            &&& x.language@ == req_text_at(es, "language"@, strict)
            &&& x.source@ == req_text_at(es, "source"@, strict)
        }),
{
}

/// Each part of a read `Transform` comes from the key of its own name (or, for a
/// choice of forms, from the form that the value has).
pub proof fn lemma_transform_fields(n: Node, strict: bool, x: Transform)
    requires
        Transform::reads(n, strict, x),
    ensures
        ({
            let es = entries(n);
            &&& x.input@ == req_text_at(es, "input"@, strict)
            &&& x.function@ == req_text_at(es, "function"@, strict)
            &&& node_map_reads(es, "params"@, strict, x.params)
            &&& x.output_to@ == req_text_at(es, "output_to"@, strict)
        }),
{
}

/// Each part of a read `BusinessRule` comes from the key of its own name (or, for a
/// choice of forms, from the form that the value has).
pub proof fn lemma_business_rule_fields(n: Node, strict: bool, x: BusinessRule)
    requires
        BusinessRule::reads(n, strict, x),
    ensures
        ({
            let es = entries(n);
            &&& x.name@ == req_text_at(es, "name"@, strict)
            &&& opt_view(x.threshold) == decimal_at(es, "threshold"@)
            &&& x.actual@ == req_text_at(es, "actual"@, strict)
        }),
{
}

/// Each part of a read `ValidationBlock` comes from the key of its own name (or, for a
/// choice of forms, from the form that the value has).
pub proof fn lemma_validation_block_fields(n: Node, strict: bool, x: ValidationBlock)
    requires
        ValidationBlock::reads(n, strict, x),
    ensures
        ({
            let es = entries(n);
            &&& list_reads::<BusinessRule>(es, "business_rules"@, strict, x.business_rules)
        }),
{
}

/// Each part of a read `Output` comes from the key of its own name (or, for a
/// choice of forms, from the form that the value has).
pub proof fn lemma_output_fields(n: Node, strict: bool, x: Output)
    requires
        Output::reads(n, strict, x),
    ensures
        ({
            let es = entries(n);
            &&& x.format@ == req_text_at(es, "format"@, strict)
            &&& opt_view(x.endpoint) == text_at(es, "endpoint"@, strict)
            &&& opt_view(x.file) == text_at(es, "file"@, strict)
            &&& opt_view(x.api_key) == text_at(es, "api_key"@, strict)
        }),
{
}

/// Each part of a read `MockResponse` comes from the key of its own name (or, for a
/// choice of forms, from the form that the value has).
pub proof fn lemma_mock_response_fields(n: Node, strict: bool, x: MockResponse)
    requires
        MockResponse::reads(n, strict, x),
    ensures
        ({
            let es = entries(n);
            &&& opt_u16(x.status) == count_at(es, "status"@, u16::MAX as int)
            &&& text_map_reads(es, "headers"@, strict, x.headers)
            &&& node_reads(es, "body"@, x.body)
            &&& opt_view(x.latency) == text_at(es, "latency"@, strict)
            &&& node_reads(es, "message"@, x.message)
            &&& opt_view(x.delay) == text_at(es, "delay"@, strict)
            &&& node_list_reads(es, "rows"@, x.rows)
        }),
{
}

/// Each part of a read `MockBehavior` comes from the key of its own name (or, for a
/// choice of forms, from the form that the value has).
pub proof fn lemma_mock_behavior_fields(n: Node, strict: bool, x: MockBehavior)
    requires
        MockBehavior::reads(n, strict, x),
    ensures
        ({
            let es = entries(n);
            &&& opt_view(x.error_rate) == decimal_at(es, "error_rate"@)
            &&& sub_reads::<MockResponse>(es, "error_response"@, strict, x.error_response)
            &&& sub_reads::<MockLatency>(es, "latency"@, strict, x.latency)
            &&& opt_view(x.timeout_rate) == decimal_at(es, "timeout_rate"@)
        }),
{
}

/// Each part of a read `LatencyDistribution` comes from the key of its own name (or, for a
/// choice of forms, from the form that the value has).
pub proof fn lemma_latency_distribution_fields(n: Node, strict: bool, x: LatencyDistribution)
    requires
        LatencyDistribution::reads(n, strict, x),
    ensures
        ({
            let es = entries(n);
            &&& x.distribution@ == req_text_at(es, "distribution"@, strict)
            &&& opt_view(x.mean) == text_at(es, "mean"@, strict)
            &&& opt_view(x.stddev) == text_at(es, "stddev"@, strict)
            &&& opt_view(x.min) == text_at(es, "min"@, strict)
            &&& opt_view(x.max) == text_at(es, "max"@, strict)
        }),
{
}

/// Each part of a read `MockConfig` comes from the key of its own name (or, for a
/// choice of forms, from the form that the value has).
pub proof fn lemma_mock_config_fields(n: Node, strict: bool, x: MockConfig)
    requires
        MockConfig::reads(n, strict, x),
    ensures
        ({
            let es = entries(n);
            &&& sub_reads::<MockResponse>(es, "response"@, strict, x.response)
            &&& list_reads::<MockResponse>(es, "responses"@, strict, x.responses)
            &&& opt_view(x.on_exhausted) == text_at(es, "on_exhausted"@, strict)
            &&& sub_reads::<MockBehavior>(es, "behavior"@, strict, x.behavior)
            &&& node_reads(es, "request_schema"@, x.request_schema)
            &&& node_reads(es, "response_schema"@, x.response_schema)
        }),
{
}

// ---------------------------------------------------------------------------
// Steps
// ---------------------------------------------------------------------------

/// The fields of a step other than its nested steps can be read.
#[verifier::opaque]
pub open spec fn step_fields_ok(es: Seq<(Node, Node)>, strict: bool) -> bool {
    &&& req_text_ok(es, "name"@, strict)
    &&& text_ok(es, "description"@, strict)
    &&& text_ok(es, "protocol"@, strict)
    &&& text_ok(es, "endpoint"@, strict)
    &&& text_ok(es, "method"@, strict)
    &&& text_map_ok(es, "headers"@, strict)
    &&& node_ok(es, "body"@)
    &&& text_ok(es, "topic"@, strict)
    &&& node_ok(es, "message"@)
    &&& text_ok(es, "mode"@, strict)
    &&& node_map_ok(es, "expect"@, strict)
    &&& sub_ok::<WithinConfig>(es, "within"@, strict)
    &&& text_ok(es, "service"@, strict)
    &&& text_ok(es, "connection"@, strict)
    &&& text_ok(es, "query"@, strict)
    &&& flag_ok(es, "async"@)
    &&& text_list_ok(es, "validate"@, strict)
    &&& text_ok(es, "on_success"@, strict)
    &&& text_ok(es, "on_failure"@, strict)
    &&& sub_ok::<LoopConfig>(es, "loop"@, strict)
    &&& text_list_ok(es, "wait_for"@, strict)
    &&& text_ok(es, "timeout"@, strict)
    &&& text_ok(es, "on_timeout"@, strict)
    &&& sub_ok::<RetryConfig>(es, "retry"@, strict)
    &&& text_map_ok(es, "extract"@, strict)
    &&& sub_ok::<TrackMetric>(es, "track_metric"@, strict)
    &&& text_ok(es, "script"@, strict)
    &&& text_ok(es, "runtime"@, strict)
    &&& list_ok::<Transform>(es, "transform"@, strict)
    &&& text_ok(es, "use_module"@, strict)
    &&& node_map_ok(es, "with"@, strict)
    &&& text_ok(es, "outputs_to"@, strict)
    &&& sub_ok::<MockConfig>(es, "mock"@, strict)
}

/// The value `n` can be read as a step.
pub open spec fn step_ok(n: Node, strict: bool) -> bool
    decreases n, 0int,
{
    let es = entries(n);
    &&& n is Mapping
    &&& step_fields_ok(es, strict)
    &&& !repeated(es, "parallel"@) && (blank(field(es, "parallel"@)) || {
            proof {
                lemma_field_decreases(n, n->Mapping_0, "parallel"@);
            }
            branches_ok(field(es, "parallel"@).unwrap(), strict)
        })
    &&& !repeated(es, "do"@) && (blank(field(es, "do"@)) || {
            proof {
                lemma_field_decreases(n, n->Mapping_0, "do"@);
            }
            do_ok(field(es, "do"@).unwrap())
        })
}

/// Every item of a sequence node reads as a step.
pub open spec fn steps_ok(v: Node, strict: bool) -> bool
    decreases v, 0int,
{
    match v {
        Node::Sequence(xs) => forall|i: int| 0 <= i < xs@.len() ==> step_ok(#[trigger] xs@[i], strict),
        _ => false,
    }
}

/// Every item of a sequence node reads as a list of steps (a parallel branch).
pub open spec fn branches_ok(v: Node, strict: bool) -> bool
    decreases v, 0int,
{
    match v {
        Node::Sequence(xs) => forall|i: int| 0 <= i < xs@.len() ==> steps_ok(#[trigger] xs@[i], strict),
        _ => false,
    }
}

/// The body of a loop can be read: as one step, else as a list of steps, else as
/// inline protocol fields (texts taking strings only).
pub open spec fn do_ok(v: Node) -> bool
    decreases v, 1int,
{
    step_ok(v, true) || steps_ok(v, true) || InlineStepBody::ok(v, true)
}

/// `x` is the reading of the step `n`.
pub open spec fn step_reads(n: Node, strict: bool, x: Step) -> bool
    decreases n, 0int,
{
    let es = entries(n);
    &&& n is Mapping
    &&& step_fields_read(es, strict, x)
    &&& if blank(field(es, "parallel"@)) {
        x.parallel is None
    } else {
        proof {
            lemma_field_decreases(n, n->Mapping_0, "parallel"@);
        }
        x.parallel matches Some(bs) && branches_read(field(es, "parallel"@).unwrap(), strict, bs@)
    }
    &&& if blank(field(es, "do"@)) {
        x.do_steps is None
    } else {
        proof {
            lemma_field_decreases(n, n->Mapping_0, "do"@);
        }
        x.do_steps matches Some(d) && do_reads(field(es, "do"@).unwrap(), d)
    }
}

/// `x` holds the reading of the fields of a step other than its nested steps.
#[verifier::opaque]
pub open spec fn step_fields_read(es: Seq<(Node, Node)>, strict: bool, x: Step) -> bool {
    &&& x.name@ == req_text_at(es, "name"@, strict)
    &&& opt_view(x.description) == text_at(es, "description"@, strict)
    &&& opt_view(x.protocol) == text_at(es, "protocol"@, strict)
    &&& opt_view(x.endpoint) == text_at(es, "endpoint"@, strict)
    &&& opt_view(x.method) == text_at(es, "method"@, strict)
    &&& text_map_reads(es, "headers"@, strict, x.headers)
    &&& node_reads(es, "body"@, x.body)
    &&& opt_view(x.topic) == text_at(es, "topic"@, strict)
    &&& node_reads(es, "message"@, x.message)
    &&& opt_view(x.mode) == text_at(es, "mode"@, strict)
    &&& node_map_reads(es, "expect"@, strict, x.expect)
    &&& sub_reads::<WithinConfig>(es, "within"@, strict, x.within)
    &&& opt_view(x.service) == text_at(es, "service"@, strict)
    &&& opt_view(x.connection) == text_at(es, "connection"@, strict)
    &&& opt_view(x.query) == text_at(es, "query"@, strict)
    &&& x.is_async == flag_at(es, "async"@)
    &&& text_list_reads(es, "validate"@, strict, x.validate)
    &&& opt_view(x.on_success) == text_at(es, "on_success"@, strict)
    &&& opt_view(x.on_failure) == text_at(es, "on_failure"@, strict)
    &&& sub_reads::<LoopConfig>(es, "loop"@, strict, x.loop_config)
    &&& text_list_reads(es, "wait_for"@, strict, x.wait_for)
    &&& opt_view(x.timeout) == text_at(es, "timeout"@, strict)
    &&& opt_view(x.on_timeout) == text_at(es, "on_timeout"@, strict)
    &&& sub_reads::<RetryConfig>(es, "retry"@, strict, x.retry)
    &&& text_map_reads(es, "extract"@, strict, x.extract)
    &&& sub_reads::<TrackMetric>(es, "track_metric"@, strict, x.track_metric)
    &&& opt_view(x.script) == text_at(es, "script"@, strict)
    &&& opt_view(x.runtime) == text_at(es, "runtime"@, strict)
    &&& list_reads::<Transform>(es, "transform"@, strict, x.transform)
    &&& opt_view(x.use_module) == text_at(es, "use_module"@, strict)
    &&& node_map_reads(es, "with"@, strict, x.with)
    &&& opt_view(x.outputs_to) == text_at(es, "outputs_to"@, strict)
    &&& sub_reads::<MockConfig>(es, "mock"@, strict, x.mock)
}

/// `xs` are the readings of the steps of a sequence node.
pub open spec fn steps_read(v: Node, strict: bool, xs: Seq<Step>) -> bool
    decreases v, 0int,
{
    match v {
        Node::Sequence(ys) => xs.len() == ys@.len() && forall|i: int|
            0 <= i < xs.len() ==> step_reads(#[trigger] ys@[i], strict, xs[i]),
        _ => false,
    }
}

/// `bs` are the readings of the parallel branches of a sequence node.
pub open spec fn branches_read(v: Node, strict: bool, bs: Seq<Vec<Step>>) -> bool
    decreases v, 0int,
{
    match v {
        Node::Sequence(ys) => bs.len() == ys@.len() && forall|i: int|
            0 <= i < bs.len() ==> steps_read(#[trigger] ys@[i], strict, bs[i]@),
        _ => false,
    }
}

/// `d` is the reading of the loop body `v`: the first of its forms that fits.
pub open spec fn do_reads(v: Node, d: DoBlock) -> bool
    decreases v, 1int,
{
    match d {
        DoBlock::Single(st) => step_ok(v, true) && step_reads(v, true, *st),
        DoBlock::Multiple(sts) => !step_ok(v, true) && steps_read(v, true, sts@),
        DoBlock::Inline(ib) => !step_ok(v, true) && !steps_ok(v, true) && InlineStepBody::reads(v, true, *ib),
    }
}

/// The description of what keeps `n` from being read as a step: its fields are
/// checked in the order in which they are read.
pub open spec fn step_flaw(n: Node, strict: bool) -> Seq<char>
    decreases n, 0int,
{
    let es = entries(n);
    if !(n is Mapping) {
        invalid_text("Step"@)
    } else if !req_text_ok(es, "name"@, strict) {
        required_flaw(es, "name"@)
    } else if !text_ok(es, "description"@, strict) {
        field_flaw(es, "description"@)
    } else if !text_ok(es, "protocol"@, strict) {
        field_flaw(es, "protocol"@)
    } else if !text_ok(es, "endpoint"@, strict) {
        field_flaw(es, "endpoint"@)
    } else if !text_ok(es, "method"@, strict) {
        field_flaw(es, "method"@)
    } else if !text_map_ok(es, "headers"@, strict) {
        field_flaw(es, "headers"@)
    } else if !node_ok(es, "body"@) {
        field_flaw(es, "body"@)
    } else if !text_ok(es, "topic"@, strict) {
        field_flaw(es, "topic"@)
    } else if !node_ok(es, "message"@) {
        field_flaw(es, "message"@)
    } else if !text_ok(es, "mode"@, strict) {
        field_flaw(es, "mode"@)
    } else if !node_map_ok(es, "expect"@, strict) {
        field_flaw(es, "expect"@)
    } else if !sub_ok::<WithinConfig>(es, "within"@, strict) {
        sub_flaw::<WithinConfig>(es, "within"@, strict)
    } else if !text_ok(es, "service"@, strict) {
        field_flaw(es, "service"@)
    } else if !text_ok(es, "connection"@, strict) {
        field_flaw(es, "connection"@)
    } else if !text_ok(es, "query"@, strict) {
        field_flaw(es, "query"@)
    } else if !flag_ok(es, "async"@) {
        field_flaw(es, "async"@)
    } else if !text_list_ok(es, "validate"@, strict) {
        field_flaw(es, "validate"@)
    } else if !text_ok(es, "on_success"@, strict) {
        field_flaw(es, "on_success"@)
    } else if !text_ok(es, "on_failure"@, strict) {
        field_flaw(es, "on_failure"@)
    } else if repeated(es, "parallel"@) {
        duplicate_text("parallel"@)
    } else if !(blank(field(es, "parallel"@)) || {
        proof {
            lemma_field_decreases(n, n->Mapping_0, "parallel"@);
        }
        branches_ok(field(es, "parallel"@).unwrap(), strict)
    }) {
        proof {
            lemma_field_decreases(n, n->Mapping_0, "parallel"@);
        }
        branches_flaw(field(es, "parallel"@).unwrap(), strict)
    } else if !sub_ok::<LoopConfig>(es, "loop"@, strict) {
        sub_flaw::<LoopConfig>(es, "loop"@, strict)
    } else if repeated(es, "do"@) {
        duplicate_text("do"@)
    } else if !(blank(field(es, "do"@)) || {
        proof {
            lemma_field_decreases(n, n->Mapping_0, "do"@);
        }
        do_ok(field(es, "do"@).unwrap())
    }) {
        no_variant_text("DoBlock"@)
    } else if !text_list_ok(es, "wait_for"@, strict) {
        field_flaw(es, "wait_for"@)
    } else if !text_ok(es, "timeout"@, strict) {
        field_flaw(es, "timeout"@)
    } else if !text_ok(es, "on_timeout"@, strict) {
        field_flaw(es, "on_timeout"@)
    } else if !sub_ok::<RetryConfig>(es, "retry"@, strict) {
        sub_flaw::<RetryConfig>(es, "retry"@, strict)
    } else if !text_map_ok(es, "extract"@, strict) {
        field_flaw(es, "extract"@)
    } else if !sub_ok::<TrackMetric>(es, "track_metric"@, strict) {
        sub_flaw::<TrackMetric>(es, "track_metric"@, strict)
    } else if !text_ok(es, "script"@, strict) {
        field_flaw(es, "script"@)
    } else if !text_ok(es, "runtime"@, strict) {
        field_flaw(es, "runtime"@)
    } else if !list_ok::<Transform>(es, "transform"@, strict) {
        list_flaw::<Transform>(es, "transform"@, strict)
    } else if !text_ok(es, "use_module"@, strict) {
        field_flaw(es, "use_module"@)
    } else if !node_map_ok(es, "with"@, strict) {
        field_flaw(es, "with"@)
    } else if !text_ok(es, "outputs_to"@, strict) {
        field_flaw(es, "outputs_to"@)
    } else if !sub_ok::<MockConfig>(es, "mock"@, strict) {
        sub_flaw::<MockConfig>(es, "mock"@, strict)
    } else {
        Seq::empty()
    }
}

/// The position of the first item of a sequence node that fails `bad`.
pub open spec fn first_step_flaw_at(xs: Seq<Node>, strict: bool) -> int {
    choose|i: int| 0 <= i < xs.len() && !step_ok(#[trigger] xs[i], strict) && forall|j: int|
        0 <= j < i ==> step_ok(#[trigger] xs[j], strict)
}

/// The position of the first branch of a sequence node that does not read.
pub open spec fn first_branch_flaw_at(xs: Seq<Node>, strict: bool) -> int {
    choose|i: int| 0 <= i < xs.len() && !steps_ok(#[trigger] xs[i], strict) && forall|j: int|
        0 <= j < i ==> steps_ok(#[trigger] xs[j], strict)
}

/// The description of what keeps `v` from being read as a list of steps: not a
/// sequence, else the flaw of its first step that does not read.
pub open spec fn steps_flaw(v: Node, strict: bool) -> Seq<char>
    decreases v, 0int,
{
    match v {
        Node::Sequence(xs) => {
            let k = first_step_flaw_at(xs@, strict);
            if 0 <= k < xs@.len() {
                proof {
                    lemma_item_decreases(v, xs, k);
                }
                step_flaw(xs@[k], strict)
            } else {
                Seq::empty()
            }
        },
        _ => invalid_text("steps"@),
    }
}

/// The description of what keeps `v` from being read as parallel branches: not a
/// sequence, else the flaw of its first branch that does not read.
pub open spec fn branches_flaw(v: Node, strict: bool) -> Seq<char>
    decreases v, 0int,
{
    match v {
        Node::Sequence(xs) => {
            let k = first_branch_flaw_at(xs@, strict);
            if 0 <= k < xs@.len() {
                proof {
                    lemma_item_decreases(v, xs, k);
                }
                steps_flaw(xs@[k], strict)
            } else {
                Seq::empty()
            }
        },
        _ => invalid_text("parallel"@),
    }
}

/// Reads a step.
pub fn decode_step(n: &Node, strict: bool) -> (r: Result<Step, Defect>)
    ensures
        r is Ok <==> step_ok(*n, strict),
        r matches Ok(x) ==> step_reads(*n, strict, x),
        r matches Err(d) ==> defect_text(d) == step_flaw(*n, strict),
    decreases *n, 0int,
{
    proof {
        reveal(step_fields_ok);
        reveal(step_fields_read);
    }
    let es = mapping_entries(n, "Step")?;
        let name = req_text(es, "name", strict)?;
        let description = opt_text(es, "description", strict)?;
        let protocol = opt_text(es, "protocol", strict)?;
        let endpoint = opt_text(es, "endpoint", strict)?;
        let method = opt_text(es, "method", strict)?;
        let headers = opt_text_map(es, "headers", strict)?;
        let body = opt_node(es, "body")?;
        let topic = opt_text(es, "topic", strict)?;
        let message = opt_node(es, "message")?;
        let mode = opt_text(es, "mode", strict)?;
        let expect = opt_node_map(es, "expect", strict)?;
        let within = opt_sub::<WithinConfig>(es, "within", strict)?;
        let service = opt_text(es, "service", strict)?;
        let connection = opt_text(es, "connection", strict)?;
        let query = opt_text(es, "query", strict)?;
        let is_async = opt_flag(es, "async")?;
        let validate = opt_text_list(es, "validate", strict)?;
        let on_success = opt_text(es, "on_success", strict)?;
        let on_failure = opt_text(es, "on_failure", strict)?;
        let parallel = match field_of(es, "parallel")? {
            None => None,
            Some(Node::Null) => None,
            Some(v) => {
                proof {
                    lemma_field_decreases(*n, *es, "parallel"@);
                }
                Some(decode_branches(v, strict)?)
            },
        };
        let loop_config = opt_sub::<LoopConfig>(es, "loop", strict)?;
        let do_steps = match field_of(es, "do")? {
            None => None,
            Some(Node::Null) => None,
            Some(v) => {
                proof {
                    lemma_field_decreases(*n, *es, "do"@);
                }
                Some(decode_do(v)?)
            },
        };
        let wait_for = opt_text_list(es, "wait_for", strict)?;
        let timeout = opt_text(es, "timeout", strict)?;
        let on_timeout = opt_text(es, "on_timeout", strict)?;
        let retry = opt_sub::<RetryConfig>(es, "retry", strict)?;
        let extract = opt_text_map(es, "extract", strict)?;
        let track_metric = opt_sub::<TrackMetric>(es, "track_metric", strict)?;
        let script = opt_text(es, "script", strict)?;
        let runtime = opt_text(es, "runtime", strict)?;
        let transform = opt_list::<Transform>(es, "transform", strict)?;
        let use_module = opt_text(es, "use_module", strict)?;
        let with = opt_node_map(es, "with", strict)?;
        let outputs_to = opt_text(es, "outputs_to", strict)?;
        let mock = opt_sub::<MockConfig>(es, "mock", strict)?;
    Ok(Step { name, description, protocol, endpoint, method, headers, body, topic, message, mode, expect, within, service, connection, query, is_async, validate, on_success, on_failure, parallel, loop_config, do_steps, wait_for, timeout, on_timeout, retry, extract, track_metric, script, runtime, transform, use_module, with, outputs_to, mock })
}

/// Each field of a read step comes from the key of its own name (`async`,
/// `loop` and `do` for the fields named otherwise).
pub proof fn lemma_step_fields(n: Node, strict: bool, x: Step)
    requires
        step_reads(n, strict, x),
    ensures
        ({
            let es = entries(n);
            &&& x.name@ == req_text_at(es, "name"@, strict)
            &&& opt_view(x.description) == text_at(es, "description"@, strict)
            &&& opt_view(x.protocol) == text_at(es, "protocol"@, strict)
            &&& opt_view(x.endpoint) == text_at(es, "endpoint"@, strict)
            &&& opt_view(x.method) == text_at(es, "method"@, strict)
            &&& text_map_reads(es, "headers"@, strict, x.headers)
            &&& node_reads(es, "body"@, x.body)
            &&& opt_view(x.topic) == text_at(es, "topic"@, strict)
            &&& node_reads(es, "message"@, x.message)
            &&& opt_view(x.mode) == text_at(es, "mode"@, strict)
            &&& node_map_reads(es, "expect"@, strict, x.expect)
            &&& sub_reads::<WithinConfig>(es, "within"@, strict, x.within)
            &&& opt_view(x.service) == text_at(es, "service"@, strict)
            &&& opt_view(x.connection) == text_at(es, "connection"@, strict)
            &&& opt_view(x.query) == text_at(es, "query"@, strict)
            &&& x.is_async == flag_at(es, "async"@)
            &&& text_list_reads(es, "validate"@, strict, x.validate)
            &&& opt_view(x.on_success) == text_at(es, "on_success"@, strict)
            &&& opt_view(x.on_failure) == text_at(es, "on_failure"@, strict)
            &&& sub_reads::<LoopConfig>(es, "loop"@, strict, x.loop_config)
            &&& text_list_reads(es, "wait_for"@, strict, x.wait_for)
            &&& opt_view(x.timeout) == text_at(es, "timeout"@, strict)
            &&& opt_view(x.on_timeout) == text_at(es, "on_timeout"@, strict)
            &&& sub_reads::<RetryConfig>(es, "retry"@, strict, x.retry)
            &&& text_map_reads(es, "extract"@, strict, x.extract)
            &&& sub_reads::<TrackMetric>(es, "track_metric"@, strict, x.track_metric)
            &&& opt_view(x.script) == text_at(es, "script"@, strict)
            &&& opt_view(x.runtime) == text_at(es, "runtime"@, strict)
            &&& list_reads::<Transform>(es, "transform"@, strict, x.transform)
            &&& opt_view(x.use_module) == text_at(es, "use_module"@, strict)
            &&& node_map_reads(es, "with"@, strict, x.with)
            &&& opt_view(x.outputs_to) == text_at(es, "outputs_to"@, strict)
            &&& sub_reads::<MockConfig>(es, "mock"@, strict, x.mock)
        }),
{
    reveal(step_fields_read);
}

/// Reads a sequence of steps.
pub fn decode_steps(v: &Node, strict: bool) -> (r: Result<Vec<Step>, Defect>)
    ensures
        r is Ok <==> steps_ok(*v, strict),
        r matches Ok(out) ==> steps_read(*v, strict, out@),
        r matches Err(d) ==> defect_text(d) == steps_flaw(*v, strict),
    decreases *v, 0int,
{
    match v {
        Node::Sequence(xs) => {
            let mut out: Vec<Step> = Vec::new();
            let mut i: usize = 0;
            while i < xs.len()
                invariant
                    *v == Node::Sequence(*xs),
                    i <= xs@.len(),
                    out@.len() == i,
                    forall|j: int| 0 <= j < i ==> step_ok(#[trigger] xs@[j], strict),
                    forall|j: int| 0 <= j < i ==> step_reads(#[trigger] xs@[j], strict, out@[j]),
                decreases xs@.len() - i,
            {
                proof {
                    lemma_item_decreases(*v, *xs, i as int);
                }
                let x = match decode_step(&xs[i], strict) {
                    Ok(x) => x,
                    Err(e) => {
                        assert(!step_ok(v->Sequence_0@[i as int], strict));
                        proof {
                            let k = first_step_flaw_at(xs@, strict);
                            assert(0 <= k < xs@.len() && !step_ok(xs@[k], strict) && forall|j: int|
                                0 <= j < k ==> step_ok(#[trigger] xs@[j], strict));
                            if k < i {
                                assert(step_ok(xs@[k], strict));
                            }
                            if k > i {
                                assert(step_ok(xs@[i as int], strict));
                            }
                        }
                        return Err(e);
                    },
                };
                out.push(x);
                i = i + 1;
            }
            Ok(out)
        },
        _ => Err(Defect::InvalidType(crate::text::owned("steps"))),
    }
}

/// Reads a sequence of parallel branches, each a sequence of steps.
pub fn decode_branches(v: &Node, strict: bool) -> (r: Result<Vec<Vec<Step>>, Defect>)
    ensures
        r is Ok <==> branches_ok(*v, strict),
        r matches Ok(out) ==> branches_read(*v, strict, out@),
        r matches Err(d) ==> defect_text(d) == branches_flaw(*v, strict),
    decreases *v, 0int,
{
    match v {
        Node::Sequence(xs) => {
            let mut out: Vec<Vec<Step>> = Vec::new();
            let mut i: usize = 0;
            while i < xs.len()
                invariant
                    *v == Node::Sequence(*xs),
                    i <= xs@.len(),
                    out@.len() == i,
                    forall|j: int| 0 <= j < i ==> steps_ok(#[trigger] xs@[j], strict),
                    forall|j: int| 0 <= j < i ==> steps_read(#[trigger] xs@[j], strict, out@[j]@),
                decreases xs@.len() - i,
            {
                proof {
                    lemma_item_decreases(*v, *xs, i as int);
                }
                let x = match decode_steps(&xs[i], strict) {
                    Ok(x) => x,
                    Err(e) => {
                        assert(!steps_ok(v->Sequence_0@[i as int], strict));
                        proof {
                            let k = first_branch_flaw_at(xs@, strict);
                            assert(0 <= k < xs@.len() && !steps_ok(xs@[k], strict) && forall|j: int|
                                0 <= j < k ==> steps_ok(#[trigger] xs@[j], strict));
                            if k < i {
                                assert(steps_ok(xs@[k], strict));
                            }
                            if k > i {
                                assert(steps_ok(xs@[i as int], strict));
                            }
                        }
                        return Err(e);
                    },
                };
                out.push(x);
                i = i + 1;
            }
            Ok(out)
        },
        _ => Err(Defect::InvalidType(crate::text::owned("parallel"))),
    }
}

/// Reads the body of a loop: one step, else a list of steps, else inline fields.
pub fn decode_do(v: &Node) -> (r: Result<DoBlock, Defect>)
    ensures
        r is Ok <==> do_ok(*v),
        r matches Ok(d) ==> do_reads(*v, d),
        r matches Err(e) ==> defect_text(e) == no_variant_text("DoBlock"@),
    decreases *v, 1int,
{
    match decode_step(v, true) {
        Ok(st) => Ok(DoBlock::Single(Box::new(st))),
        Err(_) => match decode_steps(v, true) {
            Ok(sts) => Ok(DoBlock::Multiple(sts)),
            Err(_) => match InlineStepBody::decode(v, true) {
                Ok(ib) => Ok(DoBlock::Inline(Box::new(ib))),
                Err(_) => Err(Defect::NoMatchingVariant(crate::text::owned("DoBlock"))),
            },
        },
    }
}


// ---------------------------------------------------------------------------
// Documents
// ---------------------------------------------------------------------------

/// The required list of steps `name` can be read; an empty (`null`) value reads
/// as no steps.
pub open spec fn scenario_ok(es: Seq<(Node, Node)>, name: Seq<char>) -> bool {
    &&& !repeated(es, name)
    &&& field(es, name) is Some
    &&& field(es, name).unwrap() is Null || steps_ok(field(es, name).unwrap(), false)
}

/// `x` is the reading of the required list of steps `name`.
pub open spec fn scenario_reads(es: Seq<(Node, Node)>, name: Seq<char>, x: Seq<Step>) -> bool {
    if field(es, name).unwrap() is Null {
        x.len() == 0
    } else {
        steps_read(field(es, name).unwrap(), false, x)
    }
}

/// The description of what keeps the required list of steps `name` from being
/// read: given twice, absent, or the flaw of the list.
pub open spec fn scenario_flaw(es: Seq<(Node, Node)>, name: Seq<char>) -> Seq<char> {
    if repeated(es, name) {
        duplicate_text(name)
    } else if field(es, name) is None {
        missing_text(name)
    } else {
        steps_flaw(field(es, name).unwrap(), false)
    }
}

/// Reads the required list of steps `name`.
pub fn read_scenario(es: &Vec<(Node, Node)>, name: &str) -> (r: Result<Vec<Step>, Defect>)
    ensures
        r is Ok <==> scenario_ok(es@, name@),
        r matches Ok(x) ==> scenario_reads(es@, name@, x@),
        r matches Err(d) ==> defect_text(d) == scenario_flaw(es@, name@),
{
    match field_of(es, name)? {
        None => Err(Defect::MissingField(owned(name))),
        Some(Node::Null) => Ok(Vec::new()),
        Some(v) => decode_steps(v, false),
    }
}

/// The node that names a plan: its field `test`, else its alias `name`.
pub open spec fn plan_name_field(es: Seq<(Node, Node)>) -> Option<Node> {
    if field(es, "test"@) is Some {
        field(es, "test"@)
    } else {
        field(es, "name"@)
    }
}

/// The document `n` can be read as a test plan.
pub open spec fn plan_ok(n: Node) -> bool {
    let es = entries(n);
    &&& n is Mapping
    &&& !repeated(es, "test"@)
    &&& !repeated(es, "name"@)
    &&& !(field(es, "test"@) is Some && field(es, "name"@) is Some)
    &&& plan_name_field(es) is Some
    &&& text_of(plan_name_field(es).unwrap(), false) is Some
    &&& text_ok(es, "description"@, false)
    &&& text_list_ok(es, "imports"@, false)
    &&& sub_ok::<Config>(es, "config"@, false)
    &&& list_ok::<DataSource>(es, "data_sources"@, false)
    &&& list_ok::<Function>(es, "functions"@, false)
    &&& scenario_ok(es, "scenario"@)
    &&& sub_ok::<ValidationBlock>(es, "validation"@, false)
    &&& list_ok::<Output>(es, "outputs"@, false)
    &&& sub_ok::<Metadata>(es, "metadata"@, false)
    &&& text_ok(es, "base"@, false)
    &&& text_ok(es, "extends"@, false)
}

/// The description of what keeps the document `n` from being read as a test
/// plan: its parts are checked in the order in which they are read.
pub open spec fn plan_flaw(n: Node) -> Seq<char> {
    let es = entries(n);
    if !(n is Mapping) {
        invalid_text("TestPlan"@)
    } else if repeated(es, "test"@) {
        duplicate_text("test"@)
    } else if repeated(es, "name"@) {
        duplicate_text("name"@)
    } else if field(es, "test"@) is Some && field(es, "name"@) is Some {
        duplicate_text("test"@)
    } else if plan_name_field(es) is None {
        missing_text("test"@)
    } else if text_of(plan_name_field(es).unwrap(), false) is None {
        invalid_text("test"@)
    } else if !text_ok(es, "description"@, false) {
        field_flaw(es, "description"@)
    } else if !text_list_ok(es, "imports"@, false) {
        field_flaw(es, "imports"@)
    } else if !sub_ok::<Config>(es, "config"@, false) {
        sub_flaw::<Config>(es, "config"@, false)
    } else if !list_ok::<DataSource>(es, "data_sources"@, false) {
        list_flaw::<DataSource>(es, "data_sources"@, false)
    } else if !list_ok::<Function>(es, "functions"@, false) {
        list_flaw::<Function>(es, "functions"@, false)
    } else if !scenario_ok(es, "scenario"@) {
        scenario_flaw(es, "scenario"@)
    } else if !sub_ok::<ValidationBlock>(es, "validation"@, false) {
        sub_flaw::<ValidationBlock>(es, "validation"@, false)
    } else if !list_ok::<Output>(es, "outputs"@, false) {
        list_flaw::<Output>(es, "outputs"@, false)
    } else if !sub_ok::<Metadata>(es, "metadata"@, false) {
        sub_flaw::<Metadata>(es, "metadata"@, false)
    } else if !text_ok(es, "base"@, false) {
        field_flaw(es, "base"@)
    } else if !text_ok(es, "extends"@, false) {
        field_flaw(es, "extends"@)
    } else {
        Seq::empty()
    }
}

/// `p` is the reading of the test-plan document `n`.
pub open spec fn plan_reads(n: Node, p: TestPlan) -> bool {
    let es = entries(n);
    &&& p.test@ == text_of(plan_name_field(es).unwrap(), false).unwrap()
    &&& opt_view(p.description) == text_at(es, "description"@, false)
    &&& text_list_reads(es, "imports"@, false, p.imports)
    &&& sub_reads::<Config>(es, "config"@, false, p.config)
    &&& list_reads::<DataSource>(es, "data_sources"@, false, p.data_sources)
    &&& list_reads::<Function>(es, "functions"@, false, p.functions)
    &&& scenario_reads(es, "scenario"@, p.scenario@)
    &&& sub_reads::<ValidationBlock>(es, "validation"@, false, p.validation)
    &&& list_reads::<Output>(es, "outputs"@, false, p.outputs)
    &&& sub_reads::<Metadata>(es, "metadata"@, false, p.metadata)
    &&& opt_view(p.base) == text_at(es, "base"@, false)
    &&& opt_view(p.extends) == text_at(es, "extends"@, false)
}

/// Each part of a read `TestPlan` comes from the key of its own name (the name of
/// a plan from `test`, or its alias `name`).
pub proof fn lemma_plan_fields(n: Node, x: TestPlan)
    requires
        plan_reads(n, x),
    ensures
        ({
            let es = entries(n);
            &&& x.test@ == text_of(plan_name_field(es).unwrap(), false).unwrap()
            &&& opt_view(x.description) == text_at(es, "description"@, false)
            &&& text_list_reads(es, "imports"@, false, x.imports)
            &&& sub_reads::<Config>(es, "config"@, false, x.config)
            &&& list_reads::<DataSource>(es, "data_sources"@, false, x.data_sources)
            &&& list_reads::<Function>(es, "functions"@, false, x.functions)
            &&& scenario_reads(es, "scenario"@, x.scenario@)
            &&& sub_reads::<ValidationBlock>(es, "validation"@, false, x.validation)
            &&& list_reads::<Output>(es, "outputs"@, false, x.outputs)
            &&& sub_reads::<Metadata>(es, "metadata"@, false, x.metadata)
            &&& opt_view(x.base) == text_at(es, "base"@, false)
            &&& opt_view(x.extends) == text_at(es, "extends"@, false)
        }),
{
}

/// The metadata of a read plan comes from its `metadata` mapping, key by key: its
/// author is the text under `author`, its creation time the text under `created`.
pub proof fn lemma_plan_metadata(n: Node, x: TestPlan, m: Node)
    requires
        plan_reads(n, x),
        field(entries(n), "metadata"@) == Some(m),
        m is Mapping,
    ensures
        x.metadata matches Some(md) && opt_view(md.author) == text_at(entries(m), "author"@, false) && opt_view(
            md.created,
        ) == text_at(entries(m), "created"@, false),
{
    lemma_plan_fields(n, x);
    lemma_metadata_fields(m, false, x.metadata->0);
}

/// Reads a test plan from its parsed YAML document.
pub fn read_plan(n: &Node) -> (r: Result<TestPlan, Defect>)
    ensures
        r is Ok <==> plan_ok(*n),
        r matches Ok(p) ==> plan_reads(*n, p),
        r matches Err(d) ==> defect_text(d) == plan_flaw(*n),
{
    let es = mapping_entries(n, "TestPlan")?;
    let by_test = field_of(es, "test")?;
    let by_name = field_of(es, "name")?;
    let name_node = match (by_test, by_name) {
        (Some(_), Some(_)) => return Err(Defect::DuplicateField(owned("test"))),
        (Some(v), None) => v,
        (None, Some(v)) => v,
        (None, None) => return Err(Defect::MissingField(owned("test"))),
    };
    let test = read_text(name_node, false, "test")?;
    let description = opt_text(es, "description", false)?;
    let imports = opt_text_list(es, "imports", false)?;
    let config = opt_sub::<Config>(es, "config", false)?;
    let data_sources = opt_list::<DataSource>(es, "data_sources", false)?;
    let functions = opt_list::<Function>(es, "functions", false)?;
    let scenario = read_scenario(es, "scenario")?;
    let validation = opt_sub::<ValidationBlock>(es, "validation", false)?;
    let outputs = opt_list::<Output>(es, "outputs", false)?;
    let metadata = opt_sub::<Metadata>(es, "metadata", false)?;
    let base = opt_text(es, "base", false)?;
    let extends = opt_text(es, "extends", false)?;
    Ok(
        TestPlan {
            test,
            description,
            imports,
            config,
            data_sources,
            functions,
            scenario,
            validation,
            outputs,
            metadata,
            base,
            extends,
        },
    )
}

/// The document `n` can be read as a module file.
pub open spec fn module_ok(n: Node) -> bool {
    let es = entries(n);
    &&& n is Mapping
    &&& req_text_ok(es, "module"@, false)
    &&& text_list_ok(es, "inputs"@, false)
    &&& text_list_ok(es, "outputs"@, false)
    &&& scenario_ok(es, "scenario"@)
}

/// The description of what keeps the document `n` from being read as a module:
/// its parts are checked in the order in which they are read.
pub open spec fn module_flaw(n: Node) -> Seq<char> {
    let es = entries(n);
    if !(n is Mapping) {
        invalid_text("ModuleDefinition"@)
    } else if !req_text_ok(es, "module"@, false) {
        required_flaw(es, "module"@)
    } else if !text_list_ok(es, "inputs"@, false) {
        field_flaw(es, "inputs"@)
    } else if !text_list_ok(es, "outputs"@, false) {
        field_flaw(es, "outputs"@)
    } else if !scenario_ok(es, "scenario"@) {
        scenario_flaw(es, "scenario"@)
    } else {
        Seq::empty()
    }
}

/// `m` is the reading of the module document `n`.
pub open spec fn module_reads(n: Node, m: ModuleDefinition) -> bool {
    let es = entries(n);
    &&& m.module@ == req_text_at(es, "module"@, false)
    &&& text_list_reads(es, "inputs"@, false, m.inputs)
    &&& text_list_reads(es, "outputs"@, false, m.outputs)
    &&& scenario_reads(es, "scenario"@, m.scenario@)
}

/// Each part of a read `ModuleDefinition` comes from the key of its own name (the name of
/// a plan from `test`, or its alias `name`).
pub proof fn lemma_module_fields(n: Node, x: ModuleDefinition)
    requires
        module_reads(n, x),
    ensures
        ({
            let es = entries(n);
            &&& x.module@ == req_text_at(es, "module"@, false)
            &&& text_list_reads(es, "inputs"@, false, x.inputs)
            &&& text_list_reads(es, "outputs"@, false, x.outputs)
            &&& scenario_reads(es, "scenario"@, x.scenario@)
        }),
{
}

/// Reads a module definition from its parsed YAML document.
pub fn read_module(n: &Node) -> (r: Result<ModuleDefinition, Defect>)
    ensures
        r is Ok <==> module_ok(*n),
        r matches Ok(m) ==> module_reads(*n, m),
        r matches Err(d) ==> defect_text(d) == module_flaw(*n),
{
    let es = mapping_entries(n, "ModuleDefinition")?;
    let module = req_text(es, "module", false)?;
    let inputs = opt_text_list(es, "inputs", false)?;
    let outputs = opt_text_list(es, "outputs", false)?;
    let scenario = read_scenario(es, "scenario")?;
    Ok(ModuleDefinition { module, inputs, outputs, scenario })
}

/// Why a YAML text could not be read as a plan or a module.
#[derive(Debug, Clone)]
pub enum PlanError {
    /// The text is not a YAML document: the parser's message.
    Yaml(String),
    /// The document does not have the shape that the eDSL requires.
    Shape(Defect),
}

impl PlanError {
    /// The underlying cause, as text: the parser's message, or a description of
    /// the defect.
    pub fn cause(&self) -> (c: String)
        ensures
            self matches PlanError::Yaml(m) ==> c@ == m@,
            *self matches PlanError::Shape(d) ==> c@ == defect_text(d),
    {
        match self {
            PlanError::Yaml(m) => m.clone(),
            PlanError::Shape(d) => d.describe(),
        }
    }
}

impl TestPlan {
    /// Parses a test plan from YAML text: the text is parsed by serde_yaml, then
    /// read by [`read_plan`].
    pub fn from_yaml_str(yaml: &str) -> (r: Result<TestPlan, PlanError>)
        ensures
            match yaml_parse(yaml@) {
                Err(m) => r matches Err(PlanError::Yaml(e)) && e@ == m,
                Ok(n) => {
                    &&& (r is Ok <==> plan_ok(n))
                    &&& (r matches Ok(p) ==> plan_reads(n, p))
                    &&& (r is Err ==> r matches Err(PlanError::Shape(_)))
                    &&& (r matches Err(PlanError::Shape(d)) ==> defect_text(d) == plan_flaw(n))
                },
            },
    {
        match parse_yaml(yaml) {
            Err(m) => Err(PlanError::Yaml(m)),
            Ok(n) => match read_plan(&n) {
                Ok(p) => Ok(p),
                Err(d) => Err(PlanError::Shape(d)),
            },
        }
    }
}

impl ModuleDefinition {
    /// Parses a module definition from YAML text: the text is parsed by
    /// serde_yaml, then read by [`read_module`].
    pub fn from_yaml_str(yaml: &str) -> (r: Result<ModuleDefinition, PlanError>)
        ensures
            match yaml_parse(yaml@) {
                Err(m) => r matches Err(PlanError::Yaml(e)) && e@ == m,
                Ok(n) => {
                    &&& (r is Ok <==> module_ok(n))
                    &&& (r matches Ok(x) ==> module_reads(n, x))
                    &&& (r is Err ==> r matches Err(PlanError::Shape(_)))
                    &&& (r matches Err(PlanError::Shape(d)) ==> defect_text(d) == module_flaw(n))
                },
            },
    {
        match parse_yaml(yaml) {
            Err(m) => Err(PlanError::Yaml(m)),
            Ok(n) => match read_module(&n) {
                Ok(x) => Ok(x),
                Err(d) => Err(PlanError::Shape(d)),
            },
        }
    }
}

} // verus!
