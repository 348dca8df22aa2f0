//! The supervisor: maps network names to tunnels and answers control requests, one at
//! a time.

use vstd::prelude::*;
use crate::api::{api_error_of, ApiError, ApiRequest, ApiResponse, ControlAction};
use crate::error::{msg, WgAgentError};
use crate::json::{json_string, push_json_string, push_number};
use crate::session::Session;
use crate::text::decimal_text;
use crate::tunnel::{
    lemma_same_config_ok, same_config, state_name, stoppable, string_eq, tunnel_config_ok, Platform, Tunnel, TunnelConfig,
    TunnelState, TunnelStats,
};

verus! {

/// Names the networks it knows to their configurations and running tunnels.
pub struct CommandHandler<S> {
    tunnels: Vec<(String, Tunnel<S>)>,
    configs: Vec<(String, TunnelConfig)>,
}

/// The status object of a network, keys in sorted order.
pub open spec fn status_json(network: Seq<char>, s: TunnelStats, names: Seq<Seq<char>>) -> Seq<char> {
    "{\"interface\":"@ + json_string(s.interface@) + ",\"network\":"@ + json_string(network)
        + ",\"peers\":{\"active\":"@ + decimal_text(s.active_peers as nat) + ",\"healthy\":"@
        + decimal_text(s.healthy_peers as nat) + ",\"names\":["@ + json_list(names) + "],\"total\":"@
        + decimal_text(s.total_peers as nat) + "},\"state\":"@ + json_string(state_name(s.state))
        + ",\"traffic\":{\"rx_bytes\":"@ + decimal_text(s.total_rx_bytes as nat) + ",\"tx_bytes\":"@
        + decimal_text(s.total_tx_bytes as nat) + "}}"@
}

/// `s` is the snapshot `Tunnel::stats` gives of `t` at `now`.
pub open spec fn stats_of<S>(t: Tunnel<S>, now: u64, s: TunnelStats) -> bool {
    &&& s.state == t.spec_state()
    &&& s.interface@ == t.spec_interface()
    &&& s.total_peers == t.peer_view().len()
    &&& s.active_peers == crate::tunnel::count_active(t.peer_view())
    &&& s.healthy_peers == t.healthy_count(now)
    &&& s.total_tx_bytes == t.traffic().0
    &&& s.total_rx_bytes == t.traffic().1
}

/// The names of the peers a tunnel shows.
pub open spec fn peer_names_of<S>(t: Tunnel<S>) -> Seq<Seq<char>> {
    t.peer_view().map_values(|p: crate::peer::Peer| p.config.name@)
}

/// The object a successful connect answers with, keys in sorted order.
pub open spec fn connect_json(network: Seq<char>, iface: Seq<char>, peers: nat, state: TunnelState) -> Seq<char> {
    "{\"interface\":"@ + json_string(iface) + ",\"network\":"@ + json_string(network) + ",\"peers\":"@
        + decimal_text(peers) + ",\"state\":"@ + json_string(state_name(state)) + "}"@
}

/// JSON string literals separated by commas.
pub open spec fn json_list(names: Seq<Seq<char>>) -> Seq<char>
    decreases names.len(),
{
    if names.len() == 0 {
        Seq::empty()
    } else if names.len() == 1 {
        json_string(names[0])
    } else {
        json_list(names.drop_last()) + ","@ + json_string(names.last())
    }
}

fn push_json_list(out: &mut String, names: &Vec<String>)
    ensures
        final(out)@ == old(out)@ + json_list(names@.map_values(|s: String| s@)),
{
    let ghost start = out@;
    let ghost v = names@.map_values(|s: String| s@);
    let mut i: usize = 0;
    assert(v.subrange(0, 0) =~= Seq::<Seq<char>>::empty());
    while i < names.len()
        invariant
            i <= names@.len(),
            v == names@.map_values(|s: String| s@),
            out@ == start + json_list(v.subrange(0, i as int)),
        decreases names@.len() - i,
    {
        let ghost before = out@;
        if i > 0 {
            out.append(",");
        }
        push_json_string(out, names[i].as_str());
        assert(v.subrange(0, i + 1).drop_last() =~= v.subrange(0, i as int));
        if i == 0 {
            assert(v.subrange(0, 1)[0] == names@[0]@);
        }
        i = i + 1;
        assert(out@ =~= start + json_list(v.subrange(0, i as int)));
    }
    assert(v.subrange(0, names@.len() as int) =~= v);
}

/// Writes the status object of a network.
pub fn write_status(network: &str, s: &TunnelStats, names: &Vec<String>) -> (r: String)
    ensures
        r@ == status_json(network@, *s, names@.map_values(|x: String| x@)),
{
    let mut out = msg("{\"interface\":");
    push_json_string(&mut out, s.interface.as_str());
    out.append(",\"network\":");
    push_json_string(&mut out, network);
    out.append(",\"peers\":{\"active\":");
    push_number(&mut out, s.active_peers as u64);
    out.append(",\"healthy\":");
    push_number(&mut out, s.healthy_peers as u64);
    out.append(",\"names\":[");
    push_json_list(&mut out, names);
    out.append("],\"total\":");
    push_number(&mut out, s.total_peers as u64);
    out.append("},\"state\":");
    let st = s.state.to_string();
    push_json_string(&mut out, st.as_str());
    out.append(",\"traffic\":{\"rx_bytes\":");
    push_number(&mut out, s.total_rx_bytes);
    out.append(",\"tx_bytes\":");
    push_number(&mut out, s.total_tx_bytes);
    out.append("}}");
    assert(out@ =~= status_json(network@, *s, names@.map_values(|x: String| x@)));
    out
}

/// Whether the request's action is one that needs an existing tunnel.
pub open spec fn needs_tunnel(a: ControlAction) -> bool {
    a == ControlAction::Disconnect || a == ControlAction::Status || a == ControlAction::Reload
}

impl<S> CommandHandler<S> {
    pub closed spec fn networks(&self) -> Seq<Seq<char>> {
        self.tunnels@.map_values(|e: (String, Tunnel<S>)| e.0@)
    }

    pub closed spec fn tunnel_views(&self) -> Seq<Tunnel<S>> {
        self.tunnels@.map_values(|e: (String, Tunnel<S>)| e.1)
    }

    /// The stored configurations, in the order of `configured`.
    pub closed spec fn config_views(&self) -> Seq<TunnelConfig> {
        self.configs@.map_values(|e: (String, TunnelConfig)| e.1)
    }

    pub closed spec fn configured(&self) -> Seq<Seq<char>> {
        self.configs@.map_values(|e: (String, TunnelConfig)| e.0@)
    }

    pub closed spec fn tunnel_ok(&self) -> bool {
        &&& forall|i: int| 0 <= i < self.tunnels@.len() ==> (#[trigger] self.tunnels@[i]).1.wf()
        &&& forall|i: int, j: int|
            0 <= i < j < self.tunnels@.len() ==> #[trigger] self.tunnels@[i].0@ != #[trigger] self.tunnels@[j].0@
    }

    /// The state of the tunnel under each network, in the order of `networks`.
    pub closed spec fn network_states(&self) -> Seq<crate::tunnel::TunnelState> {
        self.tunnels@.map_values(|e: (String, Tunnel<S>)| e.1.spec_state())
    }

    pub open spec fn wf(&self) -> bool {
        self.tunnel_ok()
    }

    /// Whether a configuration is stored under a network name.
    pub open spec fn has_configured(&self, name: Seq<char>) -> bool {
        exists|i: int| 0 <= i < self.configured().len() && #[trigger] self.configured()[i] == name
    }

    /// Whether a tunnel runs under a network name.
    pub open spec fn has_network(&self, name: Seq<char>) -> bool {
        exists|i: int| 0 <= i < self.networks().len() && #[trigger] self.networks()[i] == name
    }

    /// No networks configured, no tunnels.
    pub fn new() -> (r: CommandHandler<S>)
        ensures
            r.wf(),
            r.networks().len() == 0,
    {
        let r = CommandHandler { tunnels: Vec::new(), configs: Vec::new() };
        assert(r.networks() =~= Seq::<Seq<char>>::empty());
        r
    }

    /// Makes a network's configuration known, replacing an earlier one of that name.
    pub fn load_config(&mut self, network: String, config: TunnelConfig)
        requires
            old(self).wf(),
        ensures
            final(self).wf(),
            final(self).networks() == old(self).networks(),
            final(self).has_configured(network@),
            exists|c: int|
                0 <= c < final(self).configured().len() && final(self).configured()[c] == network@
                    && (forall|c2: int| 0 <= c2 < c ==> final(self).configured()[c2] != network@)
                    && #[trigger] final(self).config_views()[c] == config,
    {
        let mut i: usize = 0;
        while i < self.configs.len()
            invariant
                i <= self.configs@.len(),
                self.tunnels == old(self).tunnels,
                self.configs == old(self).configs,
                self.wf(),
                forall|j: int| 0 <= j < i ==> self.configured()[j] != network@,
            decreases self.configs@.len() - i,
        {
            if string_eq(&self.configs[i].0, network.as_str()) {
                let ghost nv = network@;
                self.configs.set(i, (network, config));
                assert(self.tunnels@ == old(self).tunnels@);
                assert(self.configured()[i as int] == nv);
                assert(self.config_views()[i as int] == config);
                assert forall|c2: int| 0 <= c2 < i implies self.configured()[c2] != nv by {
                    assert(self.configs@[c2] == old(self).configs@[c2]);
                    assert(old(self).configured()[c2] != nv);
                }
                assert(self.configured()[i as int] == nv && self.config_views()[i as int] == config);
                return;
            }
            i = i + 1;
        }
        let ghost nv = network@;
        let ghost cv = config;
        self.configs.push((network, config));
        assert(self.configured()[self.configs@.len() - 1] == nv);
        assert(self.config_views()[self.configs@.len() - 1] == cv);
        assert forall|c2: int| 0 <= c2 < self.configs@.len() - 1 implies self.configured()[c2] != nv by {
            assert(self.configs@[c2] == old(self).configs@[c2]);
            assert(old(self).configured()[c2] != nv);
        }
    }

    /// Names of the configured networks.
    pub fn list_networks(&self) -> (r: Vec<String>)
        ensures
            r@.map_values(|s: String| s@) == self.configured(),
    {
        let mut out: Vec<String> = Vec::new();
        let mut i: usize = 0;
        while i < self.configs.len()
            invariant
                i <= self.configs@.len(),
                out@.len() == i,
                forall|j: int| 0 <= j < i ==> #[trigger] out@[j]@ == self.configs@[j].0@,
            decreases self.configs@.len() - i,
        {
            out.push(self.configs[i].0.clone());
            i = i + 1;
        }
        assert(out@.map_values(|s: String| s@) =~= self.configured());
        out
    }

    fn find_tunnel(&self, network: &str) -> (r: Option<usize>)
        ensures
            match r {
                Some(i) => i < self.networks().len() && self.networks()[i as int] == network@,
                None => !self.has_network(network@),
            },
    {
        let mut i: usize = 0;
        while i < self.tunnels.len()
            invariant
                i <= self.tunnels@.len(),
                forall|j: int| 0 <= j < i ==> self.networks()[j] != network@,
            decreases self.tunnels@.len() - i,
        {
            if string_eq(&self.tunnels[i].0, network) {
                return Some(i);
            }
            i = i + 1;
        }
        None
    }

    fn find_config(&self, network: &str) -> (r: Option<usize>)
        ensures
            match r {
                Some(i) => i < self.configs@.len() && self.configured()[i as int] == network@ && forall|j: int|
                    0 <= j < i ==> self.configured()[j] != network@,
                None => !self.has_configured(network@),
            },
    {
        let mut i: usize = 0;
        while i < self.configs.len()
            invariant
                i <= self.configs@.len(),
                forall|j: int| 0 <= j < i ==> self.configured()[j] != network@,
            decreases self.configs@.len() - i,
        {
            if string_eq(&self.configs[i].0, network) {
                return Some(i);
            }
            i = i + 1;
        }
        None
    }

    /// The tunnel under a network name, for the tasks that move its packets.
    pub fn tunnel_mut(&mut self, network: &str) -> Option<&mut Tunnel<S>> {
        match self.find_tunnel(network) {
            Some(i) => Some(&mut self.tunnels[i].1),
            None => None,
        }
    }

    /// The state of every running tunnel, by network name.
    pub fn get_all_states(&self) -> (r: Vec<(String, crate::tunnel::TunnelState)>)
        ensures
            r@.len() == self.networks().len(),
    {
        let mut out: Vec<(String, crate::tunnel::TunnelState)> = Vec::new();
        let mut i: usize = 0;
        while i < self.tunnels.len()
            invariant
                i <= self.tunnels@.len(),
                out@.len() == i,
            decreases self.tunnels@.len() - i,
        {
            out.push((self.tunnels[i].0.clone(), self.tunnels[i].1.state()));
            i = i + 1;
        }
        out
    }
}

impl<S: Session> CommandHandler<S> {
    /// Answers one request. A disconnect, status or reload for a network with no tunnel
    /// is answered with `network_not_found` and changes nothing; `rotate_keys` is not
    /// implemented and says so.
    pub fn handle_request<P: Platform>(&mut self, req: &ApiRequest, platform: &mut P, now: u64) -> (r: ApiResponse)
        requires
            old(self).wf(),
        ensures
            final(self).wf(),
            r.id == req.id,
            needs_tunnel(req.action) && !old(self).has_network(req.network@) ==> {
                &&& final(self).networks() == old(self).networks()
                &&& final(self).tunnel_views() == old(self).tunnel_views()
                &&& !r.success
                &&& r.data is None
                &&& r.error == Some(ApiError::NetworkNotFound(req.network))
            },
            req.action == ControlAction::Reload && old(self).has_network(req.network@) && old(self).has_configured(req.network@)
                ==> final(self).networks() == old(self).networks() && exists|i: int|
                0 <= i < old(self).networks().len() && old(self).networks()[i] == req.network@ && (r.success
                    <==> #[trigger] final(self).network_states()[i] == TunnelState::Active),
            req.action == ControlAction::Status && old(self).has_network(req.network@) ==> r.success && exists|i: int|
                0 <= i < old(self).networks().len() && old(self).networks()[i] == req.network@ && (r.data matches Some(d)
                    && exists|st: TunnelStats|
                    stats_of(#[trigger] old(self).tunnel_views()[i], now, st) && d@ == status_json(
                        req.network@,
                        st,
                        peer_names_of(old(self).tunnel_views()[i]),
                    )),
            req.action == ControlAction::Disconnect && (exists|i: int|
                0 <= i < old(self).networks().len() && old(self).networks()[i] == req.network@
                    && stoppable(#[trigger] old(self).network_states()[i])) ==> r.success && !final(self).has_network(req.network@),
            req.action == ControlAction::Connect && (exists|i: int|
                0 <= i < old(self).networks().len() && old(self).networks()[i] == req.network@
                    && #[trigger] old(self).network_states()[i] == TunnelState::Active) ==> !r.success
                && (r.error matches Some(ApiError::InvalidState(_))) && final(self).networks() == old(self).networks()
                && final(self).network_states() == old(self).network_states()
                && final(self).tunnel_views() == old(self).tunnel_views(),
            req.action == ControlAction::Connect && r.success ==> exists|i: int, c: int|
                0 <= i < final(self).networks().len() && final(self).networks()[i] == req.network@
                    && 0 <= c < old(self).configured().len() && old(self).configured()[c] == req.network@
                    && #[trigger] same_config(final(self).tunnel_views()[i].spec_config(), old(self).config_views()[c]),
            req.action == ControlAction::Connect && !old(self).has_configured(req.network@) && !(exists|i: int|
                0 <= i < old(self).networks().len() && old(self).networks()[i] == req.network@
                && #[trigger] old(self).network_states()[i] == TunnelState::Active) ==> r.error matches Some(ApiError::ConfigError(_)),
            req.action == ControlAction::Connect && (exists|c: int|
                0 <= c < old(self).configured().len() && old(self).configured()[c] == req.network@
                    && (forall|c2: int| 0 <= c2 < c ==> old(self).configured()[c2] != req.network@)
                    && !tunnel_config_ok(#[trigger] old(self).config_views()[c])) && !(exists|i: int|
                0 <= i < old(self).networks().len() && old(self).networks()[i] == req.network@
                && #[trigger] old(self).network_states()[i] == TunnelState::Active) ==> r.error matches Some(ApiError::ConfigError(_)),
            req.action == ControlAction::Connect && r.success ==> exists|i: int|
                0 <= i < final(self).networks().len() && final(self).networks()[i] == req.network@
                    && #[trigger] final(self).network_states()[i] == TunnelState::Active
                    && (r.data matches Some(d) && d@ == connect_json(
                        req.network@,
                        final(self).tunnel_views()[i].spec_interface(),
                        final(self).tunnel_views()[i].peer_view().len(),
                        TunnelState::Active,
                    )),
            req.action == ControlAction::Connect && r.success ==> final(self).has_network(req.network@),
            req.action == ControlAction::Disconnect && r.success ==> !final(self).has_network(req.network@),
            req.action == ControlAction::Status ==> final(self).networks() == old(self).networks()
                && (r.success <==> old(self).has_network(req.network@)),
            req.action == ControlAction::RotateKeys ==> !r.success && (r.error matches Some(ApiError::InternalError(m))
                && m@ == "not implemented"@) && final(self).networks() == old(self).networks(),
    {
        match req.action {
            ControlAction::RotateKeys => ApiResponse::error(req.id.clone(), ApiError::InternalError(msg("not implemented"))),
            ControlAction::Status => {
                match self.find_tunnel(req.network.as_str()) {
                    None => ApiResponse::error(req.id.clone(), ApiError::NetworkNotFound(req.network.clone())),
                    Some(i) => {
                        let stats = self.tunnels[i].1.stats(now);
                        let names = self.tunnels[i].1.peer_names();
                        let data = write_status(req.network.as_str(), &stats, &names);
                        proof {
                            let t = self.tunnel_views()[i as int];
                            assert(t == self.tunnels@[i as int].1);
                            assert(names@.map_values(|x: String| x@) =~= peer_names_of(t));
                            assert(stats_of(t, now, stats));
                        }
                        ApiResponse::success(req.id.clone(), Some(data))
                    },
                }
            },
            ControlAction::Disconnect => {
                match self.find_tunnel(req.network.as_str()) {
                    None => ApiResponse::error(req.id.clone(), ApiError::NetworkNotFound(req.network.clone())),
                    Some(i) => {
                        assert(self.tunnels@[i as int].1.wf());
                        let ghost before = self.tunnels@;
                        let r0 = self.tunnels[i].1.stop(platform);
                        assert(forall|j: int| 0 <= j < before.len() && j != i ==> self.tunnels@[j] == before[j]);
                        assert(self.tunnels@[i as int].0 == before[i as int].0);
                        proof {
                            assert forall|a: int, b: int| 0 <= a < b < self.tunnels@.len() implies #[trigger] self.tunnels@[a].0@
                                != #[trigger] self.tunnels@[b].0@ by {
                                assert(self.tunnels@[a].0 == before[a].0);
                                assert(self.tunnels@[b].0 == before[b].0);
                                assert(before[a].0@ != before[b].0@);
                            }
                            assert forall|j: int| 0 <= j < self.tunnels@.len() implies (#[trigger] self.tunnels@[j]).1.wf() by {
                                if j != i {
                                    assert(self.tunnels@[j] == before[j]);
                                }
                            }
                        }
                        match r0 {
                            Ok(()) => {},
                            Err(e) => {
                                return ApiResponse::error(req.id.clone(), ApiError::from(e));
                            },
                        }
                        let ghost mid = self.tunnels@;
                        self.tunnels.remove(i);
                        proof {
                            assert forall|j: int| 0 <= j < self.tunnels@.len() implies #[trigger] self.tunnels@[j]
                                == mid[if j < i { j } else { j + 1 }] by {}
                            assert forall|a: int, b: int| 0 <= a < b < self.tunnels@.len() implies #[trigger] self.tunnels@[a].0@
                                != #[trigger] self.tunnels@[b].0@ by {
                                let oa = if a < i { a } else { a + 1 };
                                let ob = if b < i { b } else { b + 1 };
                                assert(mid[oa].0@ != mid[ob].0@);
                            }
                            assert forall|j: int| 0 <= j < self.networks().len() implies #[trigger] self.networks()[j] != req.network@ by {
                                let oj = if j < i { j } else { j + 1 };
                                assert(self.tunnels@[j] == mid[oj]);
                                if oj < i {
                                    assert(mid[oj].0@ != mid[i as int].0@);
                                } else {
                                    assert(mid[i as int].0@ != mid[oj].0@);
                                }
                            }
                        }
                        let mut data = msg("{\"network\":");
                        push_json_string(&mut data, req.network.as_str());
                        data.append(",\"state\":\"stopped\"}");
                        ApiResponse::success(req.id.clone(), Some(data))
                    },
                }
            },
            ControlAction::Reload => {
                match self.find_tunnel(req.network.as_str()) {
                    None => ApiResponse::error(req.id.clone(), ApiError::NetworkNotFound(req.network.clone())),
                    Some(i) => {
                        let c = match self.find_config(req.network.as_str()) {
                            Some(c) => self.configs[c].1.duplicate(),
                            None => {
                                return ApiResponse::error(req.id.clone(), ApiError::ConfigError(msg("No configuration for this network")));
                            },
                        };
                        assert(self.tunnels@[i as int].1.wf());
                        let ghost before = self.tunnels@;
                        let r0 = self.tunnels[i].1.reload(c, platform, now);
                        assert(forall|j: int| 0 <= j < before.len() && j != i ==> self.tunnels@[j] == before[j]);
                        assert(self.tunnels@[i as int].0 == before[i as int].0);
                        proof {
                            assert forall|a: int, b: int| 0 <= a < b < self.tunnels@.len() implies #[trigger] self.tunnels@[a].0@
                                != #[trigger] self.tunnels@[b].0@ by {
                                assert(self.tunnels@[a].0 == before[a].0);
                                assert(self.tunnels@[b].0 == before[b].0);
                                assert(before[a].0@ != before[b].0@);
                            }
                            assert forall|j: int| 0 <= j < self.tunnels@.len() implies (#[trigger] self.tunnels@[j]).1.wf() by {
                                if j != i {
                                    assert(self.tunnels@[j] == before[j]);
                                }
                            }
                        }
                        proof {
                            assert(self.network_states()[i as int] == self.tunnels@[i as int].1.spec_state());
                            assert forall|j: int| 0 <= j < self.networks().len() implies self.networks()[j] == old(self).networks()[j] by {
                                assert(self.tunnels@[j].0 == before[j].0);
                            }
                            assert(self.networks() =~= old(self).networks());
                        }
                        match r0 {
                            Ok(()) => {},
                            Err(e) => {
                                return ApiResponse::error(req.id.clone(), ApiError::from(e));
                            },
                        }
                        let st = self.tunnels[i].1.state().to_string();
                        let mut data = msg("{\"network\":");
                        push_json_string(&mut data, req.network.as_str());
                        data.append(",\"reloaded\":true,\"state\":");
                        push_json_string(&mut data, st.as_str());
                        data.append("}");
                        ApiResponse::success(req.id.clone(), Some(data))
                    },
                }
            },
            ControlAction::Connect => self.connect(req, platform, now),
        }
    }

    fn connect<P: Platform>(&mut self, req: &ApiRequest, platform: &mut P, now: u64) -> (r: ApiResponse)
        requires
            old(self).wf(),
        ensures
            final(self).wf(),
            r.id == req.id,
            r.success ==> final(self).has_network(req.network@),
            !r.success ==> final(self).networks() == old(self).networks(),
            (exists|i: int| 0 <= i < old(self).networks().len() && old(self).networks()[i] == req.network@
                && old(self).network_states()[i] == crate::tunnel::TunnelState::Active) ==> !r.success
                && (r.error matches Some(ApiError::InvalidState(_))) && final(self).networks() == old(self).networks()
                && final(self).network_states() == old(self).network_states()
                && final(self).tunnel_views() == old(self).tunnel_views(),
            r.success ==> exists|i: int|
                0 <= i < final(self).networks().len() && final(self).networks()[i] == req.network@
                    && #[trigger] final(self).network_states()[i] == TunnelState::Active
                    && (r.data matches Some(d) && d@ == connect_json(
                        req.network@,
                        final(self).tunnel_views()[i].spec_interface(),
                        final(self).tunnel_views()[i].peer_view().len(),
                        TunnelState::Active,
                    )),
            r.success ==> exists|i: int, c: int|
                0 <= i < final(self).networks().len() && final(self).networks()[i] == req.network@
                    && 0 <= c < old(self).configured().len() && old(self).configured()[c] == req.network@
                    && #[trigger] same_config(final(self).tunnel_views()[i].spec_config(), old(self).config_views()[c]),
            (exists|c: int|
                0 <= c < old(self).configured().len() && old(self).configured()[c] == req.network@
                    && (forall|c2: int| 0 <= c2 < c ==> old(self).configured()[c2] != req.network@)
                    && !tunnel_config_ok(#[trigger] old(self).config_views()[c])) && !(exists|i: int|
                0 <= i < old(self).networks().len() && old(self).networks()[i] == req.network@
                && #[trigger] old(self).network_states()[i] == TunnelState::Active) ==> r.error matches Some(ApiError::ConfigError(_)),
            !old(self).has_configured(req.network@) && !(exists|i: int| 0 <= i < old(self).networks().len() && old(self).networks()[i] == req.network@
                && #[trigger] old(self).network_states()[i] == TunnelState::Active) ==> r.error matches Some(ApiError::ConfigError(_)),
    {
        let existing = self.find_tunnel(req.network.as_str());
        proof {
            if exists|i: int| 0 <= i < self.networks().len() && self.networks()[i] == req.network@
                && self.network_states()[i] == crate::tunnel::TunnelState::Active {
                let w = choose|i: int| 0 <= i < self.networks().len() && self.networks()[i] == req.network@
                    && self.network_states()[i] == crate::tunnel::TunnelState::Active;
                assert(existing is Some);
                let e = existing->0 as int;
                assert(e == w) by {
                    if e != w {
                        if e < w {
                            assert(self.tunnels@[e].0@ != self.tunnels@[w].0@);
                        } else {
                            assert(self.tunnels@[w].0@ != self.tunnels@[e].0@);
                        }
                    }
                }
            }
        }
        match existing {
            Some(i) => {
                if self.tunnels[i].1.state().is_running() {
                    return ApiResponse::error(req.id.clone(), ApiError::InvalidState(msg("Network is already connected")));
                }
            },
            None => {},
        }
        let ci = match self.find_config(req.network.as_str()) {
            Some(ci) => ci,
            None => {
                return ApiResponse::error(req.id.clone(), ApiError::ConfigError(msg("No configuration for this network")));
            },
        };
        let c = self.configs[ci].1.duplicate();
        proof {
            assert(self.config_views()[ci as int] == self.configs@[ci as int].1);
            lemma_same_config_ok(c, self.config_views()[ci as int]);
            if exists|c2: int|
                0 <= c2 < self.configured().len() && self.configured()[c2] == req.network@
                    && (forall|c3: int| 0 <= c3 < c2 ==> self.configured()[c3] != req.network@)
                    && !tunnel_config_ok(#[trigger] self.config_views()[c2]) {
                let c2 = choose|c2: int|
                    0 <= c2 < self.configured().len() && self.configured()[c2] == req.network@
                        && (forall|c3: int| 0 <= c3 < c2 ==> self.configured()[c3] != req.network@)
                        && !tunnel_config_ok(#[trigger] self.config_views()[c2]);
                assert(c2 == ci as int) by {
                    if c2 < ci {
                    } else if c2 > ci {
                        assert(self.configured()[ci as int] == req.network@);
                    }
                }
            }
        }
        let ghost stored = self.config_views()[ci as int];
        let mut tunnel: Tunnel<S> = match Tunnel::new(c) {
            Ok(t) => t,
            Err(e) => {
                return ApiResponse::error(req.id.clone(), ApiError::from(e));
            },
        };
        match tunnel.start(platform, now) {
            Ok(()) => {
                assert(tunnel.spec_state() == TunnelState::Active);
                assert(same_config(tunnel.spec_config(), stored));
            },
            Err(e) => {
                return ApiResponse::error(req.id.clone(), ApiError::from(e));
            },
        }
        let stats = tunnel.stats(now);
        let mut data = msg("{\"interface\":");
        push_json_string(&mut data, stats.interface.as_str());
        data.append(",\"network\":");
        push_json_string(&mut data, req.network.as_str());
        data.append(",\"peers\":");
        push_number(&mut data, stats.total_peers as u64);
        data.append(",\"state\":");
        let st = stats.state.to_string();
        push_json_string(&mut data, st.as_str());
        data.append("}");
        assert(data@ =~= connect_json(req.network@, tunnel.spec_interface(), tunnel.peer_view().len(), TunnelState::Active));
        let ghost dv = data@;
        let ghost old_t = self.tunnels@;
        let ghost old_n = self.networks();
        let ghost tunnel_copy = tunnel;
        let name = req.network.clone();
        match existing {
            Some(i) => {
                self.tunnels.set(i, (name, tunnel));
                assert(self.tunnels@[i as int].0@ == req.network@);
                assert(self.network_states()[i as int] == TunnelState::Active);
                assert(self.tunnel_views()[i as int] == self.tunnels@[i as int].1);
                assert(same_config(self.tunnel_views()[i as int].spec_config(), stored));
                assert(self.tunnel_views()[i as int] == tunnel_copy);
                assert forall|a: int, b: int| 0 <= a < b < self.tunnels@.len() implies #[trigger] self.tunnels@[a].0@
                    != #[trigger] self.tunnels@[b].0@ by {
                    assert(old_t[a].0@ != old_t[b].0@);
                }
                assert(self.networks()[i as int] == req.network@);
            },
            None => {
                self.tunnels.push((name, tunnel));
                let ghost n = self.tunnels@.len() - 1;
                assert forall|a: int, b: int| 0 <= a < b < self.tunnels@.len() implies #[trigger] self.tunnels@[a].0@
                    != #[trigger] self.tunnels@[b].0@ by {
                    if b < n {
                        assert(old_t[a].0@ != old_t[b].0@);
                    } else {
                        assert(old_n[a] == old_t[a].0@);
                        assert(old_n[a] != req.network@);
                        assert(self.tunnels@[b].0@ == req.network@);
                    }
                }
                assert(self.networks()[n] == req.network@);
                assert(self.network_states()[n] == TunnelState::Active);
                assert(self.tunnel_views()[n] == self.tunnels@[n].1);
                assert(same_config(self.tunnel_views()[n].spec_config(), stored));
                assert(self.tunnel_views()[n] == tunnel_copy);
            },
        }
        ApiResponse::success(req.id.clone(), Some(data))
    }
}

} // verus!
