//! Configuration: the validated record the daemon runs on, the routing rules
//! it applies to every target, and the parsers that read rules and overrides
//! from plain strings. Reading files and the process environment happens
//! outside the crate; the values land here and are validated here.

use vstd::prelude::*;
use vstd::string::StrSliceExecFns;
use vstd::string::StringExecFns;
use crate::error::ConfigError;
use crate::text::{
    count_char_spec, find_char, lemma_find_char_props, lemma_split_nonempty, lower, parse_u16,
    parse_u16_spec, split_spec, split_str, str_contains_char, str_count_char, str_find, trim,
    trim_spec, eq_ignore_ascii_case,
};

verus! {

/// One declarative routing rule: a destination CIDR, with protocol and port
/// range as advisory metadata.
#[derive(Debug, Clone, PartialEq)]
pub struct RoutingRule {
    pub destination: String,
    pub protocol: Option<String>,
    pub port_range: Option<(u16, u16)>,
}

/// Mathematical view of a routing rule.
pub ghost struct RoutingRuleV {
    pub destination: Seq<char>,
    pub protocol: Option<Seq<char>>,
    pub port_range: Option<(u16, u16)>,
}

impl View for RoutingRule {
    type V = RoutingRuleV;

    open spec fn view(&self) -> RoutingRuleV {
        RoutingRuleV {
            destination: self.destination@,
            protocol: match self.protocol {
                Some(p) => Some(p@),
                None => None,
            },
            port_range: self.port_range,
        }
    }
}

/// What parsing a port range string yields: a single port `p` gives `(p, p)`;
/// `start-end` gives the pair when both sides (after trimming) are decimal
/// ports and start does not exceed end; anything else is an error.
pub open spec fn spec_parse_port_range(s: Seq<char>) -> Option<(u16, u16)> {
    if count_char_spec(s, '-') == 0 {
        match parse_u16_spec(s) {
            Option::Some(p) => Option::Some((p, p)),
            Option::None => Option::None,
        }
    } else if count_char_spec(s, '-') == 1 {
        let i = find_char(s, '-');
        match (
            parse_u16_spec(trim_spec(s.subrange(0, i))),
            parse_u16_spec(trim_spec(s.subrange(i + 1, s.len() as int))),
        ) {
            (Option::Some(a), Option::Some(b)) => if a <= b {
                Option::Some((a, b))
            } else {
                Option::None
            },
            _ => Option::None,
        }
    } else {
        Option::None
    }
}

proof fn lemma_count_one_find(s: Seq<char>, c: char)
    requires
        count_char_spec(s, c) >= 1,
    ensures
        find_char(s, c) >= 0,
    decreases s.len(),
{
    if s.len() > 0 {
        if s[0] == c {
        } else {
            if count_char_spec(s.drop_last(), c) >= 1 {
                lemma_count_one_find(s.drop_last(), c);
                lemma_find_char_props(s.drop_last(), c);
                let i = find_char(s.drop_last(), c);
                assert forall|j: int| 0 <= j < i implies s[j] != c by {
                    assert(s.drop_last()[j] != c);
                }
                assert(s[i] == s.drop_last()[i]);
                crate::text::lemma_find_char_at(s, c, i);
            } else {
                assert(s.last() == c);
                crate::text::lemma_find_char_props(s, c);
                if find_char(s, c) < 0 {
                    assert(s[s.len() - 1] != c);
                }
            }
        }
    }
}

/// Parse a port range: `start-end` or a single port, as
/// `spec_parse_port_range` states it.
pub fn parse_port_range(port_str: &str) -> (r: Result<(u16, u16), ConfigError>)
    ensures
        match r {
            Ok(pr) => spec_parse_port_range(port_str@) == Some(pr),
            Err(e) => {
                &&& spec_parse_port_range(port_str@) is None
                &&& e matches ConfigError::InvalidFormat(_)
            },
        },
{
    let dashes = str_count_char(port_str, '-');
    if dashes == 0 {
        match parse_u16(port_str) {
            Some(p) => Ok((p, p)),
            None => Err(ConfigError::InvalidFormat(String::from_str("Invalid port"))),
        }
    } else if dashes == 1 {
        let i = match str_find(port_str, '-') {
            Some(i) => i,
            None => {
                proof {
                    lemma_count_one_find(port_str@, '-');
                }
                0
            },
        };
        proof {
            lemma_find_char_props(port_str@, '-');
        }
        let len = port_str.unicode_len();
        let left = trim(port_str.substring_char(0, i));
        let right = trim(port_str.substring_char(i + 1, len));
        let start = match parse_u16(left) {
            Some(p) => p,
            None => {
                return Err(ConfigError::InvalidFormat(String::from_str("Invalid start port")));
            },
        };
        let end = match parse_u16(right) {
            Some(p) => p,
            None => {
                return Err(ConfigError::InvalidFormat(String::from_str("Invalid end port")));
            },
        };
        if start > end {
            return Err(
                ConfigError::InvalidFormat(
                    String::from_str("Invalid port range: start port is greater than end port"),
                ),
            );
        }
        Ok((start, end))
    } else {
        Err(ConfigError::InvalidFormat(String::from_str("Invalid port range format")))
    }
}

/// Verdict on one comma-separated piece of a rules string.
pub ghost enum RulePieceV {
    /// The piece is only whitespace and is skipped.
    SkipPiece,
    /// The piece parses to this rule.
    RuleOf(RoutingRuleV),
    /// The piece is malformed.
    BadPiece,
}

/// What one piece of a rules string yields. The piece is trimmed and split on
/// `:` into destination, optional protocol and optional port range; the
/// destination must be non-empty and contain `/`; pieces past the third are
/// ignored.
pub open spec fn spec_parse_rule_piece(piece: Seq<char>) -> RulePieceV {
    let t = trim_spec(piece);
    if t.len() == 0 {
        RulePieceV::SkipPiece
    } else {
        let parts = split_spec(t, ':');
        let dest = trim_spec(parts[0]);
        if dest.len() == 0 {
            RulePieceV::BadPiece
        } else if !dest.contains('/') {
            RulePieceV::BadPiece
        } else {
            let protocol = if parts.len() > 1 && trim_spec(parts[1]).len() > 0 {
                Option::Some(trim_spec(parts[1]))
            } else {
                Option::None
            };
            if parts.len() > 2 && trim_spec(parts[2]).len() > 0 {
                match spec_parse_port_range(trim_spec(parts[2])) {
                    Option::None => RulePieceV::BadPiece,
                    Option::Some(pr) => RulePieceV::RuleOf(
                        RoutingRuleV { destination: dest, protocol, port_range: Option::Some(pr) },
                    ),
                }
            } else {
                RulePieceV::RuleOf(
                    RoutingRuleV { destination: dest, protocol, port_range: Option::None },
                )
            }
        }
    }
}

/// What parsing a whole rules string yields: the rules of its comma-separated
/// pieces in order, whitespace pieces skipped; nothing when a piece is
/// malformed. A string of only whitespace yields no rules.
pub open spec fn spec_rules_from(pieces: Seq<Seq<char>>) -> Option<Seq<RoutingRuleV>>
    decreases pieces.len(),
{
    if pieces.len() == 0 {
        Option::Some(Seq::empty())
    } else {
        match spec_parse_rule_piece(pieces[0]) {
            RulePieceV::BadPiece => Option::None,
            RulePieceV::SkipPiece => spec_rules_from(pieces.subrange(1, pieces.len() as int)),
            RulePieceV::RuleOf(rv) => match spec_rules_from(
                pieces.subrange(1, pieces.len() as int),
            ) {
                Option::None => Option::None,
                Option::Some(rest) => Option::Some(seq![rv] + rest),
            },
        }
    }
}

/// What parsing a rules string yields.
pub open spec fn spec_parse_rules(s: Seq<char>) -> Option<Seq<RoutingRuleV>> {
    if trim_spec(s).len() == 0 {
        Option::Some(Seq::empty())
    } else {
        spec_rules_from(split_spec(s, ','))
    }
}

/// Parse one comma-separated piece.
fn parse_rule_piece(piece: &str) -> (r: Result<Option<RoutingRule>, ConfigError>)
    ensures
        match r {
            Ok(opt) => match opt {
                Some(rule) => spec_parse_rule_piece(piece@) == RulePieceV::RuleOf(rule@),
                None => spec_parse_rule_piece(piece@) is SkipPiece,
            },
            Err(e) => {
                &&& spec_parse_rule_piece(piece@) is BadPiece
                &&& e matches ConfigError::InvalidFormat(_)
            },
        },
{
    let t = trim(piece);
    if t.is_empty() {
        return Ok(None);
    }
    let parts = split_str(t, ':');
    proof {
        lemma_split_nonempty(t@, ':');
    }
    let dest = trim(parts[0]);
    if dest.is_empty() {
        return Err(ConfigError::InvalidFormat(String::from_str("Invalid routing rule format")));
    }
    if !str_contains_char(dest, '/') {
        return Err(
            ConfigError::InvalidFormat(
                String::from_str("Invalid destination in routing rule: not in CIDR format"),
            ),
        );
    }
    let protocol: Option<String> = if parts.len() > 1 {
        let p1 = trim(parts[1]);
        if p1.is_empty() {
            None
        } else {
            Some(String::from_str(p1))
        }
    } else {
        None
    };
    let port_range: Option<(u16, u16)> = if parts.len() > 2 {
        let p2 = trim(parts[2]);
        if p2.is_empty() {
            None
        } else {
            match parse_port_range(p2) {
                Ok(pr) => Some(pr),
                Err(e) => {
                    return Err(e);
                },
            }
        }
    } else {
        None
    };
    Ok(Some(RoutingRule { destination: String::from_str(dest), protocol, port_range }))
}

/// Parse routing rules from a plain override string, the format shared by
/// the environment and the command line: comma-separated pieces, each
/// `destination[:protocol[:port_start-port_end]]`.
pub fn parse_routing_rules_from_env(rules_str: &str) -> (r: Result<Vec<RoutingRule>, ConfigError>)
    ensures
        match r {
            Ok(rules) => spec_parse_rules(rules_str@) == Some(
                rules@.map_values(|x: RoutingRule| x@),
            ),
            Err(e) => {
                &&& spec_parse_rules(rules_str@) is None
                &&& e matches ConfigError::InvalidFormat(_)
            },
        },
{
    if trim(rules_str).is_empty() {
        let rules: Vec<RoutingRule> = Vec::new();
        proof {
            assert(rules@.map_values(|x: RoutingRule| x@) =~= Seq::<RoutingRuleV>::empty());
        }
        return Ok(rules);
    }
    let pieces = split_str(rules_str, ',');
    let ghost piecesv = split_spec(rules_str@, ',');
    let n = pieces.len();
    let mut rules: Vec<RoutingRule> = Vec::new();
    let mut i: usize = 0;
    proof {
        assert(piecesv.subrange(0, n as int) =~= piecesv);
        assert(rules@.map_values(|x: RoutingRule| x@) =~= Seq::<RoutingRuleV>::empty());
        assert(Seq::<RoutingRuleV>::empty() + spec_rules_from(piecesv).unwrap_or(Seq::empty())
            =~= spec_rules_from(piecesv).unwrap_or(Seq::empty()));
    }
    while i < n
        invariant
            n == pieces@.len(),
            n == piecesv.len(),
            piecesv == split_spec(rules_str@, ','),
            trim_spec(rules_str@).len() != 0,
            forall|k: int| 0 <= k < n ==> pieces@[k]@ == piecesv[k],
            i <= n,
            match spec_rules_from(piecesv.subrange(i as int, n as int)) {
                Option::None => spec_rules_from(piecesv) is None,
                Option::Some(rest) => spec_rules_from(piecesv) == Some(
                    rules@.map_values(|x: RoutingRule| x@) + rest,
                ),
            },
        decreases n - i,
    {
        let ghost restv = piecesv.subrange(i as int, n as int);
        proof {
            assert(restv[0] == piecesv[i as int]);
            assert(restv.subrange(1, restv.len() as int) =~= piecesv.subrange(i + 1, n as int));
        }
        match parse_rule_piece(pieces[i]) {
            Ok(Some(rule)) => {
                let ghost rulev = rule@;
                let ghost oldrules = rules@;
                rules.push(rule);
                proof {
                    assert(rules@.map_values(|x: RoutingRule| x@) =~= oldrules.map_values(
                        |x: RoutingRule| x@,
                    ).push(rulev));
                    match spec_rules_from(piecesv.subrange(i + 1, n as int)) {
                        Option::Some(rest) => {
                            assert(oldrules.map_values(|x: RoutingRule| x@) + (seq![rulev] + rest)
                                =~= rules@.map_values(|x: RoutingRule| x@) + rest);
                        },
                        Option::None => {},
                    }
                }
            },
            Ok(None) => {},
            Err(e) => {
                return Err(e);
            },
        }
        i += 1;
    }
    proof {
        assert(piecesv.subrange(n as int, n as int) =~= Seq::<Seq<char>>::empty());
        assert(rules@.map_values(|x: RoutingRule| x@) + Seq::<RoutingRuleV>::empty()
            =~= rules@.map_values(|x: RoutingRule| x@));
    }
    Ok(rules)
}

} // verus!

verus! {

/// The validated configuration record the daemon runs on.
#[derive(Debug, Clone, PartialEq)]
pub struct AppConfig {
    pub warp_container_pattern: String,
    pub target_container_label: String,
    pub network_preference_label: String,
    pub routing_rules: Vec<RoutingRule>,
    pub log_level: String,
    pub docker_socket: String,
    pub docker_connection_method: String,
}

/// Mathematical view of the configuration record.
pub ghost struct AppConfigV {
    pub warp_container_pattern: Seq<char>,
    pub target_container_label: Seq<char>,
    pub network_preference_label: Seq<char>,
    pub routing_rules: Seq<RoutingRuleV>,
    pub log_level: Seq<char>,
    pub docker_socket: Seq<char>,
    pub docker_connection_method: Seq<char>,
}

impl View for AppConfig {
    type V = AppConfigV;

    open spec fn view(&self) -> AppConfigV {
        AppConfigV {
            warp_container_pattern: self.warp_container_pattern@,
            target_container_label: self.target_container_label@,
            network_preference_label: self.network_preference_label@,
            routing_rules: self.routing_rules@.map_values(|x: RoutingRule| x@),
            log_level: self.log_level@,
            docker_socket: self.docker_socket@,
            docker_connection_method: self.docker_connection_method@,
        }
    }
}

/// The default configuration: pattern `warp-*`, labels
/// `network.warp.target` and `network.warp.network`, one rule routing
/// everything (`0.0.0.0/0`), log level `info`, the standard local socket.
pub open spec fn spec_default_config() -> AppConfigV {
    AppConfigV {
        warp_container_pattern: "warp-*"@,
        target_container_label: "network.warp.target"@,
        network_preference_label: "network.warp.network"@,
        routing_rules: seq![
            RoutingRuleV {
                destination: "0.0.0.0/0"@,
                protocol: Option::None,
                port_range: Option::None,
            },
        ],
        log_level: "info"@,
        docker_socket: "/var/run/docker.sock"@,
        docker_connection_method: "socket"@,
    }
}

/// A recognized log level, ASCII case folded: trace, debug, info, warn or
/// error.
pub open spec fn is_valid_log_level(s: Seq<char>) -> bool {
    ||| lower(s) == lower("trace"@)
    ||| lower(s) == lower("debug"@)
    ||| lower(s) == lower("info"@)
    ||| lower(s) == lower("warn"@)
    ||| lower(s) == lower("error"@)
}

/// A recognized connection method, ASCII case folded: socket, http or ssl.
pub open spec fn is_valid_connection_method(s: Seq<char>) -> bool {
    ||| lower(s) == lower("socket"@)
    ||| lower(s) == lower("http"@)
    ||| lower(s) == lower("ssl"@)
}

/// A routing rule in good shape: non-blank destination in CIDR form (it
/// contains a `/`), and an ordered port range if one is given.
pub open spec fn spec_rule_ok(rv: RoutingRuleV) -> bool {
    &&& trim_spec(rv.destination).len() > 0
    &&& rv.destination.contains('/')
    &&& (rv.port_range matches Some(pr) ==> pr.0 <= pr.1)
}

/// A configuration record in good shape: no blank pattern or labels, a
/// recognized log level and connection method, and every rule in good shape.
pub open spec fn spec_config_valid(c: AppConfigV) -> bool {
    &&& trim_spec(c.warp_container_pattern).len() > 0
    &&& trim_spec(c.target_container_label).len() > 0
    &&& trim_spec(c.network_preference_label).len() > 0
    &&& is_valid_log_level(c.log_level)
    &&& is_valid_connection_method(c.docker_connection_method)
    &&& forall|i: int| 0 <= i < c.routing_rules.len() ==> spec_rule_ok(c.routing_rules[i])
}

/// Clone a routing rule; the view is preserved.
pub fn clone_routing_rule(r: &RoutingRule) -> (c: RoutingRule)
    ensures
        c@ == r@,
{
    RoutingRule {
        destination: r.destination.clone(),
        protocol: crate::container::clone_opt_string(&r.protocol),
        port_range: r.port_range,
    }
}

/// Clone a list of routing rules; the views are preserved.
pub fn clone_routing_rules(rs: &Vec<RoutingRule>) -> (c: Vec<RoutingRule>)
    ensures
        c@.map_values(|x: RoutingRule| x@) == rs@.map_values(|x: RoutingRule| x@),
{
    let n = rs.len();
    let mut out: Vec<RoutingRule> = Vec::new();
    let mut i: usize = 0;
    while i < n
        invariant
            n == rs@.len(),
            i <= n,
            out@.len() == i,
            forall|j: int| 0 <= j < i ==> out@[j]@ == rs@[j]@,
        decreases n - i,
    {
        out.push(clone_routing_rule(&rs[i]));
        i += 1;
    }
    proof {
        assert(out@.map_values(|x: RoutingRule| x@) =~= rs@.map_values(|x: RoutingRule| x@));
    }
    out
}

impl AppConfig {
    /// A configuration with the default values.
    pub fn new() -> (r: Self)
        ensures
            r@ == spec_default_config(),
    {
        let mut routing_rules: Vec<RoutingRule> = Vec::new();
        routing_rules.push(
            RoutingRule {
                destination: String::from_str("0.0.0.0/0"),
                protocol: None,
                port_range: None,
            },
        );
        let r = AppConfig {
            warp_container_pattern: String::from_str("warp-*"),
            target_container_label: String::from_str("network.warp.target"),
            network_preference_label: String::from_str("network.warp.network"),
            routing_rules,
            log_level: String::from_str("info"),
            docker_socket: String::from_str("/var/run/docker.sock"),
            docker_connection_method: String::from_str("socket"),
        };
        proof {
            assert(r@.routing_rules =~= spec_default_config().routing_rules);
        }
        r
    }

    /// Validate the configuration, exactly as `spec_config_valid` states it.
    pub fn validate(&self) -> (r: Result<(), ConfigError>)
        ensures
            r is Ok <==> spec_config_valid(self@),
            r matches Err(e) ==> e matches ConfigError::ValidationError(_),
    {
        if trim(self.warp_container_pattern.as_str()).is_empty() {
            return Err(
                ConfigError::ValidationError(
                    String::from_str("Warp container pattern cannot be empty"),
                ),
            );
        }
        if trim(self.target_container_label.as_str()).is_empty() {
            return Err(
                ConfigError::ValidationError(
                    String::from_str("Target container label cannot be empty"),
                ),
            );
        }
        if trim(self.network_preference_label.as_str()).is_empty() {
            return Err(
                ConfigError::ValidationError(
                    String::from_str("Network preference label cannot be empty"),
                ),
            );
        }
        let level = self.log_level.as_str();
        if !(eq_ignore_ascii_case(level, "trace") || eq_ignore_ascii_case(level, "debug")
            || eq_ignore_ascii_case(level, "info") || eq_ignore_ascii_case(level, "warn")
            || eq_ignore_ascii_case(level, "error")) {
            return Err(ConfigError::ValidationError(String::from_str("Invalid log level")));
        }
        let method = self.docker_connection_method.as_str();
        if !(eq_ignore_ascii_case(method, "socket") || eq_ignore_ascii_case(method, "http")
            || eq_ignore_ascii_case(method, "ssl")) {
            return Err(
                ConfigError::ValidationError(String::from_str("Invalid docker connection method")),
            );
        }
        let n = self.routing_rules.len();
        let mut i: usize = 0;
        while i < n
            invariant
                n == self.routing_rules@.len(),
                i <= n,
                forall|j: int| 0 <= j < i ==> spec_rule_ok(self@.routing_rules[j]),
            decreases n - i,
        {
            let rule = &self.routing_rules[i];
            if trim(rule.destination.as_str()).is_empty() {
                proof {
                    assert(!spec_rule_ok(self@.routing_rules[i as int]));
                }
                return Err(
                    ConfigError::ValidationError(
                        String::from_str("Routing rule has empty destination"),
                    ),
                );
            }
            if !str_contains_char(rule.destination.as_str(), '/') {
                proof {
                    assert(!spec_rule_ok(self@.routing_rules[i as int]));
                }
                return Err(
                    ConfigError::ValidationError(
                        String::from_str("Routing rule destination is not in CIDR format"),
                    ),
                );
            }
            if let Some((start, end)) = rule.port_range {
                if start > end {
                    proof {
                        assert(!spec_rule_ok(self@.routing_rules[i as int]));
                    }
                    return Err(
                        ConfigError::ValidationError(
                            String::from_str("Routing rule has invalid port range"),
                        ),
                    );
                }
            }
            i += 1;
        }
        Ok(())
    }
}

impl Default for AppConfig {
    /// The default configuration, as `spec_default_config` states it.
    fn default() -> (r: Self)
        ensures
            r@ == spec_default_config(),
    {
        AppConfig::new()
    }
}

/// The default configuration passes validation.
pub proof fn lemma_default_config_valid()
    ensures
        spec_config_valid(spec_default_config()),
{
    reveal_strlit("warp-*");
    reveal_strlit("network.warp.target");
    reveal_strlit("network.warp.network");
    reveal_strlit("0.0.0.0/0");
    let c = spec_default_config();
    assert(trim_spec(c.warp_container_pattern).len() > 0);
    assert(trim_spec(c.target_container_label).len() > 0);
    assert(trim_spec(c.network_preference_label).len() > 0);
    assert(is_valid_log_level(c.log_level));
    assert(is_valid_connection_method(c.docker_connection_method));
    let d = c.routing_rules[0].destination;
    assert(d[7] == '/');
    assert(d.contains('/'));
    assert(trim_spec(d).len() > 0);
    assert forall|i: int| 0 <= i < c.routing_rules.len() implies spec_rule_ok(
        c.routing_rules[i],
    ) by {
        assert(c.routing_rules[i] == c.routing_rules[0]);
    }
}

} // verus!

verus! {

/// Override values layered over a base configuration: the command line and
/// the environment both produce one of these views.
pub ghost struct ConfigOverridesV {
    pub docker_connection_method: Option<Seq<char>>,
    pub warp_container_pattern: Option<Seq<char>>,
    pub target_container_label: Option<Seq<char>>,
    pub network_preference_label: Option<Seq<char>>,
    pub log_level: Option<Seq<char>>,
    pub docker_socket: Option<Seq<char>>,
    pub routing_rules: Option<Seq<char>>,
}

/// The overridden value where one is given, the base value otherwise.
pub open spec fn override_or(o: Option<Seq<char>>, base: Seq<char>) -> Seq<char> {
    match o {
        Option::Some(v) => v,
        Option::None => base,
    }
}

/// A base configuration with overrides applied: each given field replaces the
/// base field, and a given rules string replaces the rules if it parses.
pub open spec fn spec_apply_overrides(o: ConfigOverridesV, base: AppConfigV) -> Option<
    AppConfigV,
> {
    let rules = match o.routing_rules {
        Option::Some(rs) => spec_parse_rules(rs),
        Option::None => Option::Some(base.routing_rules),
    };
    match rules {
        Option::None => Option::None,
        Option::Some(routing_rules) => Option::Some(
            AppConfigV {
                warp_container_pattern: override_or(
                    o.warp_container_pattern,
                    base.warp_container_pattern,
                ),
                target_container_label: override_or(
                    o.target_container_label,
                    base.target_container_label,
                ),
                network_preference_label: override_or(
                    o.network_preference_label,
                    base.network_preference_label,
                ),
                routing_rules,
                log_level: override_or(o.log_level, base.log_level),
                docker_socket: override_or(o.docker_socket, base.docker_socket),
                docker_connection_method: override_or(
                    o.docker_connection_method,
                    base.docker_connection_method,
                ),
            },
        ),
    }
}

/// View of an optional override string.
pub open spec fn opt_view(o: Option<String>) -> Option<Seq<char>> {
    match o {
        Option::Some(s) => Option::Some(s@),
        Option::None => Option::None,
    }
}

/// Command-line arguments, as the argument parser outside the crate hands
/// them over.
#[derive(Debug, Clone, PartialEq)]
pub struct CliArgs {
    pub config: Option<String>,
    pub log_level: Option<String>,
    pub docker_connection_method: Option<String>,
    pub docker_socket: Option<String>,
    pub warp_container_pattern: Option<String>,
    pub target_container_label: Option<String>,
    pub network_preference_label: Option<String>,
    pub routing_rules: Option<String>,
    pub validate_config: bool,
    pub print_default_config: bool,
}

impl CliArgs {
    /// The overrides these arguments carry.
    pub open spec fn overrides_view(self) -> ConfigOverridesV {
        ConfigOverridesV {
            docker_connection_method: opt_view(self.docker_connection_method),
            warp_container_pattern: opt_view(self.warp_container_pattern),
            target_container_label: opt_view(self.target_container_label),
            network_preference_label: opt_view(self.network_preference_label),
            log_level: opt_view(self.log_level),
            docker_socket: opt_view(self.docker_socket),
            routing_rules: opt_view(self.routing_rules),
        }
    }

    /// Apply the argument overrides over a base configuration; arguments take
    /// precedence. A rules argument that does not parse is an error.
    pub fn apply_to_config(&self, base_config: AppConfig) -> (r: Result<AppConfig, ConfigError>)
        ensures
            match r {
                Ok(cfg) => spec_apply_overrides(self.overrides_view(), base_config@) == Some(cfg@),
                Err(e) => {
                    &&& spec_apply_overrides(self.overrides_view(), base_config@) is None
                    &&& e matches ConfigError::InvalidFormat(_)
                },
            },
    {
        let mut cfg = base_config;
        if let Some(method) = &self.docker_connection_method {
            cfg.docker_connection_method = method.clone();
        }
        if let Some(pattern) = &self.warp_container_pattern {
            cfg.warp_container_pattern = pattern.clone();
        }
        if let Some(label) = &self.target_container_label {
            cfg.target_container_label = label.clone();
        }
        if let Some(label) = &self.network_preference_label {
            cfg.network_preference_label = label.clone();
        }
        if let Some(level) = &self.log_level {
            cfg.log_level = level.clone();
        }
        if let Some(socket) = &self.docker_socket {
            cfg.docker_socket = socket.clone();
        }
        if let Some(rules_str) = &self.routing_rules {
            match parse_routing_rules_from_cli(rules_str.as_str()) {
                Ok(rules) => {
                    cfg.routing_rules = rules;
                },
                Err(e) => {
                    return Err(e);
                },
            }
        }
        Ok(cfg)
    }
}

/// Parse routing rules from the command-line argument string; the format is
/// the one the environment override uses.
fn parse_routing_rules_from_cli(rules_str: &str) -> (r: Result<Vec<RoutingRule>, ConfigError>)
    ensures
        match r {
            Ok(rules) => spec_parse_rules(rules_str@) == Some(
                rules@.map_values(|x: RoutingRule| x@),
            ),
            Err(e) => {
                &&& spec_parse_rules(rules_str@) is None
                &&& e matches ConfigError::InvalidFormat(_)
            },
        },
{
    parse_routing_rules_from_env(rules_str)
}

/// Configuration values read from the process environment, one per
/// recognized variable, each absent when the variable is unset.
#[derive(Debug, Clone, PartialEq)]
pub struct EnvOverrides {
    pub docker_connection_method: Option<String>,
    pub warp_container_pattern: Option<String>,
    pub target_container_label: Option<String>,
    pub network_preference_label: Option<String>,
    pub log_level: Option<String>,
    pub docker_socket: Option<String>,
    pub routing_rules: Option<String>,
}

impl EnvOverrides {
    /// The overrides these environment values carry.
    pub open spec fn overrides_view(self) -> ConfigOverridesV {
        ConfigOverridesV {
            docker_connection_method: opt_view(self.docker_connection_method),
            warp_container_pattern: opt_view(self.warp_container_pattern),
            target_container_label: opt_view(self.target_container_label),
            network_preference_label: opt_view(self.network_preference_label),
            log_level: opt_view(self.log_level),
            docker_socket: opt_view(self.docker_socket),
            routing_rules: opt_view(self.routing_rules),
        }
    }

    /// No overrides at all.
    pub fn none() -> (r: Self)
        ensures
            r.overrides_view() == (ConfigOverridesV {
                docker_connection_method: Option::None,
                warp_container_pattern: Option::None,
                target_container_label: Option::None,
                network_preference_label: Option::None,
                log_level: Option::None,
                docker_socket: Option::None,
                routing_rules: Option::None,
            }),
    {
        EnvOverrides {
            docker_connection_method: None,
            warp_container_pattern: None,
            target_container_label: None,
            network_preference_label: None,
            log_level: None,
            docker_socket: None,
            routing_rules: None,
        }
    }
}

/// Apply environment overrides over a base configuration; set variables take
/// precedence. A rules variable that does not parse is an error.
pub fn apply_env_config(base_config: AppConfig, overrides: &EnvOverrides) -> (r: Result<
    AppConfig,
    ConfigError,
>)
    ensures
        match r {
            Ok(cfg) => spec_apply_overrides(overrides.overrides_view(), base_config@) == Some(
                cfg@,
            ),
            Err(e) => {
                &&& spec_apply_overrides(overrides.overrides_view(), base_config@) is None
                &&& e matches ConfigError::InvalidFormat(_)
            },
        },
{
    let mut cfg = base_config;
    if let Some(method) = &overrides.docker_connection_method {
        cfg.docker_connection_method = method.clone();
    }
    if let Some(pattern) = &overrides.warp_container_pattern {
        cfg.warp_container_pattern = pattern.clone();
    }
    if let Some(label) = &overrides.target_container_label {
        cfg.target_container_label = label.clone();
    }
    if let Some(label) = &overrides.network_preference_label {
        cfg.network_preference_label = label.clone();
    }
    if let Some(level) = &overrides.log_level {
        cfg.log_level = level.clone();
    }
    if let Some(socket) = &overrides.docker_socket {
        cfg.docker_socket = socket.clone();
    }
    if let Some(rules_str) = &overrides.routing_rules {
        match parse_routing_rules_from_env(rules_str.as_str()) {
            Ok(rules) => {
                cfg.routing_rules = rules;
            },
            Err(e) => {
                return Err(e);
            },
        }
    }
    Ok(cfg)
}

} // verus!

verus! {

/// A routing rule as a TOML file declares it.
#[derive(Debug, Clone, PartialEq)]
pub struct TomlRoutingRule {
    pub destination: String,
    pub protocol: Option<String>,
    pub port_range: Option<(u16, u16)>,
}

/// Logging options of a TOML file.
#[derive(Debug, Clone, PartialEq)]
pub struct LoggingConfig {
    pub level: Option<String>,
    pub format: Option<String>,
}

/// Runtime connection options of a TOML file.
#[derive(Debug, Clone, PartialEq)]
pub struct DockerConfig {
    pub socket: Option<String>,
    pub api_version: Option<String>,
}

/// A configuration file's contents, every option optional. The file is read
/// and deserialized outside the crate and handed over as this record.
#[derive(Debug, Clone, PartialEq)]
pub struct TomlConfig {
    pub docker_connection_method: Option<String>,
    pub warp_container_name_pattern: Option<String>,
    pub target_container_label: Option<String>,
    pub network_preference_label: Option<String>,
    pub routing_rules: Option<Vec<TomlRoutingRule>>,
    pub logging: Option<LoggingConfig>,
    pub docker: Option<DockerConfig>,
}

impl TomlConfig {
    /// The rule views a file's rule list denotes, if one is present.
    pub open spec fn rules_view(self) -> Option<Seq<RoutingRuleV>> {
        match self.routing_rules {
            Option::Some(rs) => Option::Some(
                rs@.map_values(
                    |t: TomlRoutingRule|
                        RoutingRuleV {
                            destination: t.destination@,
                            protocol: opt_view(t.protocol),
                            port_range: t.port_range,
                        },
                ),
            ),
            Option::None => Option::None,
        }
    }

    /// The log level the file sets, if any.
    pub open spec fn level_view(self) -> Option<Seq<char>> {
        match self.logging {
            Option::Some(l) => opt_view(l.level),
            Option::None => Option::None,
        }
    }

    /// The socket path the file sets, if any.
    pub open spec fn socket_view(self) -> Option<Seq<char>> {
        match self.docker {
            Option::Some(d) => opt_view(d.socket),
            Option::None => Option::None,
        }
    }

    /// A base configuration with the file's options applied over it.
    pub open spec fn spec_to_app_config(self, base: AppConfigV) -> AppConfigV {
        AppConfigV {
            warp_container_pattern: override_or(
                opt_view(self.warp_container_name_pattern),
                base.warp_container_pattern,
            ),
            target_container_label: override_or(
                opt_view(self.target_container_label),
                base.target_container_label,
            ),
            network_preference_label: override_or(
                opt_view(self.network_preference_label),
                base.network_preference_label,
            ),
            routing_rules: match self.rules_view() {
                Option::Some(rs) => rs,
                Option::None => base.routing_rules,
            },
            log_level: override_or(self.level_view(), base.log_level),
            docker_socket: override_or(self.socket_view(), base.docker_socket),
            docker_connection_method: override_or(
                opt_view(self.docker_connection_method),
                base.docker_connection_method,
            ),
        }
    }

    /// Apply the file's options over a base configuration; file options take
    /// precedence over the base, and the base fills what the file leaves out.
    pub fn to_app_config(&self, base_config: AppConfig) -> (r: AppConfig)
        ensures
            r@ == self.spec_to_app_config(base_config@),
    {
        let mut cfg = base_config;
        if let Some(method) = &self.docker_connection_method {
            cfg.docker_connection_method = method.clone();
        }
        if let Some(pattern) = &self.warp_container_name_pattern {
            cfg.warp_container_pattern = pattern.clone();
        }
        if let Some(label) = &self.target_container_label {
            cfg.target_container_label = label.clone();
        }
        if let Some(label) = &self.network_preference_label {
            cfg.network_preference_label = label.clone();
        }
        if let Some(rules) = &self.routing_rules {
            let n = rules.len();
            let mut out: Vec<RoutingRule> = Vec::new();
            let mut i: usize = 0;
            while i < n
                invariant
                    n == rules@.len(),
                    i <= n,
                    out@.len() == i,
                    forall|j: int|
                        0 <= j < i ==> out@[j]@ == (RoutingRuleV {
                            destination: rules@[j].destination@,
                            protocol: opt_view(rules@[j].protocol),
                            port_range: rules@[j].port_range,
                        }),
                decreases n - i,
            {
                let t = &rules[i];
                out.push(
                    RoutingRule {
                        destination: t.destination.clone(),
                        protocol: crate::container::clone_opt_string(&t.protocol),
                        port_range: t.port_range,
                    },
                );
                i += 1;
            }
            proof {
                assert(out@.map_values(|x: RoutingRule| x@) =~= rules@.map_values(
                    |t: TomlRoutingRule|
                        RoutingRuleV {
                            destination: t.destination@,
                            protocol: opt_view(t.protocol),
                            port_range: t.port_range,
                        },
                ));
            }
            cfg.routing_rules = out;
        }
        if let Some(logging) = &self.logging {
            if let Some(level) = &logging.level {
                cfg.log_level = level.clone();
            }
        }
        if let Some(docker) = &self.docker {
            if let Some(socket) = &docker.socket {
                cfg.docker_socket = socket.clone();
            }
        }
        cfg
    }
}

/// What composing a configuration from all sources yields: defaults, then
/// the file, then the environment, then the command line, in rising
/// precedence; nothing when an override rules string does not parse.
pub open spec fn spec_compose_config(
    toml: Option<TomlConfig>,
    env: ConfigOverridesV,
    cli: ConfigOverridesV,
) -> Option<AppConfigV> {
    let base = spec_default_config();
    let after_toml = match toml {
        Option::Some(t) => t.spec_to_app_config(base),
        Option::None => base,
    };
    match spec_apply_overrides(env, after_toml) {
        Option::None => Option::None,
        Option::Some(after_env) => spec_apply_overrides(cli, after_env),
    }
}

/// Configuration manager interface.
pub trait ConfigurationManager {
    /// The full configuration.
    fn load_configuration(&self) -> Result<AppConfig, ConfigError>;

    /// The warp container name pattern.
    fn get_warp_container_pattern(&self) -> &str;

    /// The label that marks target containers.
    fn get_target_container_label(&self) -> &str;

    /// The label that names a preferred network.
    fn get_network_preference_label(&self) -> &str;

    /// The routing rules.
    fn get_routing_rules(&self) -> &Vec<RoutingRule>;

    /// Validate a configuration record.
    fn validate_configuration(&self, config: &AppConfig) -> Result<(), ConfigError>;
}

/// The default configuration manager: holds the composed, validated record.
pub struct DefaultConfigurationManager {
    config: AppConfig,
}

impl DefaultConfigurationManager {
    /// The configuration the manager holds.
    pub closed spec fn spec_config(self) -> AppConfigV {
        self.config@
    }

    /// Compose the configuration for these command-line arguments: defaults,
    /// then the file's options (the file was read outside the crate, honoring
    /// the arguments' config path), then the environment, then the arguments;
    /// then validate the result.
    pub fn new(cli_args: &CliArgs, toml_config: Option<TomlConfig>, env: &EnvOverrides) -> (r:
        Result<Self, ConfigError>)
        ensures
            match r {
                Ok(m) => {
                    &&& spec_compose_config(
                        toml_config,
                        env.overrides_view(),
                        cli_args.overrides_view(),
                    ) == Some(m.spec_config())
                    &&& spec_config_valid(m.spec_config())
                },
                Err(e) => match spec_compose_config(
                    toml_config,
                    env.overrides_view(),
                    cli_args.overrides_view(),
                ) {
                    Option::None => e matches ConfigError::InvalidFormat(_),
                    Option::Some(cfg) => !spec_config_valid(cfg) && e
                        matches ConfigError::ValidationError(_),
                },
            },
    {
        let mut config = AppConfig::new();
        if let Some(toml) = toml_config {
            config = toml.to_app_config(config);
        }
        config = match apply_env_config(config, env) {
            Ok(c) => c,
            Err(e) => {
                return Err(e);
            },
        };
        config = match cli_args.apply_to_config(config) {
            Ok(c) => c,
            Err(e) => {
                return Err(e);
            },
        };
        match config.validate() {
            Ok(_) => (),
            Err(e) => {
                return Err(e);
            },
        }
        Ok(DefaultConfigurationManager { config })
    }

    /// A manager over the default configuration, which always validates.
    pub fn default() -> (r: Result<Self, ConfigError>)
        ensures
            r matches Ok(m) && m.spec_config() == spec_default_config(),
    {
        let config = AppConfig::new();
        proof {
            lemma_default_config_valid();
        }
        match config.validate() {
            Ok(_) => Ok(DefaultConfigurationManager { config }),
            Err(e) => {
                proof {
                    assert(false);
                }
                Err(e)
            },
        }
    }

    /// The configuration the manager holds.
    pub fn get_config(&self) -> (r: &AppConfig)
        ensures
            r@ == self.spec_config(),
    {
        &self.config
    }
}

/// Clone a configuration record; the view is preserved.
pub fn clone_app_config(c: &AppConfig) -> (r: AppConfig)
    ensures
        r@ == c@,
{
    AppConfig {
        warp_container_pattern: c.warp_container_pattern.clone(),
        target_container_label: c.target_container_label.clone(),
        network_preference_label: c.network_preference_label.clone(),
        routing_rules: clone_routing_rules(&c.routing_rules),
        log_level: c.log_level.clone(),
        docker_socket: c.docker_socket.clone(),
        docker_connection_method: c.docker_connection_method.clone(),
    }
}

impl ConfigurationManager for DefaultConfigurationManager {
    fn load_configuration(&self) -> Result<AppConfig, ConfigError> {
        Ok(clone_app_config(&self.config))
    }

    fn get_warp_container_pattern(&self) -> &str {
        self.config.warp_container_pattern.as_str()
    }

    fn get_target_container_label(&self) -> &str {
        self.config.target_container_label.as_str()
    }

    fn get_network_preference_label(&self) -> &str {
        self.config.network_preference_label.as_str()
    }

    fn get_routing_rules(&self) -> &Vec<RoutingRule> {
        &self.config.routing_rules
    }

    fn validate_configuration(&self, config: &AppConfig) -> Result<(), ConfigError> {
        config.validate()
    }
}

} // verus!
