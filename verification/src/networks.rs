//! Virtual networks: which ones are missing on the Weave server, and which ones are stale.
use crate::astra::{AstraAttachmentStatus, AstraAttachmentStatusView};
use crate::calendar::{creation_time, creation_timestamp};
use crate::status::{report_of, set_astra_attachment_status_with_weave_ew_vpc_not_ready};
use crate::text::{append_signed, decimal, lemma_decimal_injective};
use crate::weave::{
    usable_id, usable_object_id, CreateVirtualNetworkRequest, CreateVirtualNetworkRequestView,
    DeleteVirtualNetworkRequest, ObjectMetadata, ObjectMetadataView, Phase, State, StateView,
    VirtualNetwork, VirtualNetworkSpec, VirtualNetworkSpecView, VirtualNetworkView,
};
use std::collections::HashMap;
use vstd::prelude::*;
use vstd::string::StringExecFns;

verus! {

broadcast use vstd::std_specs::hash::group_hash_axioms;

/// The id under which this agent creates the network of a VNI.
pub open spec fn network_id(vni: int) -> Seq<char> {
    "astra-weave-vni-"@ + decimal(vni)
}

/// Networks of different VNIs have different ids.
pub proof fn lemma_network_id_injective(a: int, b: int)
    requires
        network_id(a) == network_id(b),
    ensures
        a == b,
{
    let prefix = "astra-weave-vni-"@.len() as int;
    assert(network_id(a).subrange(prefix, network_id(a).len() as int) =~= decimal(a));
    assert(network_id(b).subrange(prefix, network_id(b).len() as int) =~= decimal(b));
    lemma_decimal_injective(a, b);
}

/// The id under which this agent creates the network of a VNI.
pub fn astra_weave_ew_vpc_virtual_network_id(vni: i32) -> (r: String)
    ensures
        r@ == network_id(vni as int),
{
    let mut id = "astra-weave-vni-".to_owned();
    append_signed(&mut id, vni as i64);
    id
}

/// The state of a listed network. A network without one exists but is not usable.
pub open spec fn listed_network_state(network: VirtualNetworkView) -> StateView {
    match network.state() {
        Some(state) => state,
        None => StateView::error("Response is missing state"@, "list_virtual_networks"@),
    }
}

/// The state of each VNI in a listing. Where a VNI occurs twice, the later entry counts.
pub open spec fn listed_states(networks: Seq<VirtualNetworkView>) -> Map<u32, StateView>
    decreases networks.len(),
{
    if networks.len() == 0 {
        Map::empty()
    } else {
        let earlier = listed_states(networks.drop_last());
        match networks.last().vni() {
            Some(vni) => earlier.insert(vni, listed_network_state(networks.last())),
            None => earlier,
        }
    }
}

/// The models of the states in a table.
pub open spec fn states_view(states: Map<u32, State>) -> Map<u32, StateView> {
    states.map_values(|s: State| s.deep_view())
}

/// What an attachment needs of its network.
pub enum NetworkNeed {
    /// Nothing: there is no network to care for, or it is ready.
    Nothing,
    /// The network exists and is not ready; the attachment reports that.
    Report(StateView),
    /// The network does not exist.
    Creation,
}

/// What an attachment needs of its network, given the state of every known VNI.
pub open spec fn network_need(
    attachment: AstraAttachmentStatusView,
    known: Map<u32, StateView>,
) -> NetworkNeed {
    let vni = attachment.vni as u32;
    if attachment.vni == 0 {
        NetworkNeed::Nothing
    } else if !known.contains_key(vni) {
        NetworkNeed::Creation
    } else if known[vni].phase == Phase::Ready {
        NetworkNeed::Nothing
    } else {
        NetworkNeed::Report(known[vni])
    }
}

/// An attachment after its need has been looked at.
pub open spec fn network_settled(
    attachment: AstraAttachmentStatusView,
    known: Map<u32, StateView>,
) -> AstraAttachmentStatusView {
    match network_need(attachment, known) {
        NetworkNeed::Report(state) => attachment.reporting(report_of(state)),
        _ => attachment,
    }
}

/// The first attachment from `from` on whose network must be created, or the end.
pub open spec fn next_creation(
    statuses: Seq<AstraAttachmentStatusView>,
    known: Map<u32, StateView>,
    from: int,
) -> int
    decreases statuses.len() - from,
{
    if from >= statuses.len() {
        statuses.len() as int
    } else if network_need(statuses[from], known) is Creation {
        from
    } else {
        next_creation(statuses, known, from + 1)
    }
}

/// The attachments after the needs in a range have been looked at.
pub open spec fn networks_settled(
    statuses: Seq<AstraAttachmentStatusView>,
    known: Map<u32, StateView>,
    from: int,
    to: int,
) -> Seq<AstraAttachmentStatusView> {
    Seq::new(
        statuses.len(),
        |k: int|
            if from <= k < to {
                network_settled(statuses[k], known)
            } else {
                statuses[k]
            },
    )
}

/// The request that creates the network of an attachment.
pub open spec fn network_creation(
    attachment: AstraAttachmentStatusView,
) -> CreateVirtualNetworkRequestView {
    CreateVirtualNetworkRequestView {
        metadata: Some(
            ObjectMetadataView {
                id: Some(network_id(attachment.vni as int)),
                creation_timestamp: Some(creation_time()),
                deletion_timestamp: None,
                user_data: Map::empty(),
            },
        ),
        spec: Some(
            VirtualNetworkSpecView {
                vni: attachment.vni as u32,
                subnet_ipv4: Some(
                    attachment.subnet_ipv4 + "/"@ + decimal(attachment.subnet_mask as int),
                ),
                subnet_ipv6: None,
            },
        ),
    }
}

/// What a create call came back with: the network, if the response holds one, or an error text.
pub type NetworkCreated = Result<Option<VirtualNetwork>, String>;

/// Model of [`NetworkCreated`].
pub type NetworkCreatedView = Result<Option<VirtualNetworkView>, Seq<char>>;

/// The model of what a create call came back with.
pub open spec fn network_created_view(reply: NetworkCreated) -> NetworkCreatedView {
    match reply {
        Ok(network) => Ok(network.deep_view()),
        Err(error) => Err(error@),
    }
}

/// The state of a network after the call that creates it.
pub open spec fn created_network_state(reply: NetworkCreatedView) -> StateView {
    match reply {
        Ok(Some(network)) => match network.state() {
            Some(state) => state,
            None => StateView::error("Response is missing state"@, "create_virtual_network"@),
        },
        Ok(None) => StateView::error(
            "Response is missing virtual network"@,
            "create_virtual_network"@,
        ),
        Err(error) => StateView::error("API failure"@, "create_virtual_network: "@ + error),
    }
}

/// The known VNIs after a create call: only a network in the response makes its VNI known.
pub open spec fn known_after_creation(
    known: Map<u32, StateView>,
    vni: u32,
    reply: NetworkCreatedView,
) -> Map<u32, StateView> {
    if reply matches Ok(Some(_)) {
        known.insert(vni, created_network_state(reply))
    } else {
        known
    }
}

/// An attachment after a call on its behalf: a state other than ready is reported.
pub open spec fn reporting_unready(
    attachment: AstraAttachmentStatusView,
    state: StateView,
) -> AstraAttachmentStatusView {
    if state.phase == Phase::Ready {
        attachment
    } else {
        attachment.reporting(report_of(state))
    }
}

/// Some attachment wants the network with this VNI.
pub open spec fn network_wanted(
    network: VirtualNetworkView,
    statuses: Seq<AstraAttachmentStatusView>,
) -> bool {
    exists|k: int|
        0 <= k < statuses.len() && network.vni() == Some((#[trigger] statuses[k]).vni as u32)
}

/// A network that is to be deleted: no attachment wants it, it does not carry the invalid
/// VNI 0, and it can be named.
pub open spec fn network_stale(
    network: VirtualNetworkView,
    statuses: Seq<AstraAttachmentStatusView>,
) -> bool {
    &&& network.vni() != Some(0u32)
    &&& !network_wanted(network, statuses)
    &&& usable_id(network.metadata) is Some
}

/// The first stale network from `from` on, or the end.
pub open spec fn next_stale_network(
    networks: Seq<VirtualNetworkView>,
    statuses: Seq<AstraAttachmentStatusView>,
    from: int,
) -> int
    decreases networks.len() - from,
{
    if from >= networks.len() {
        networks.len() as int
    } else if network_stale(networks[from], statuses) {
        from
    } else {
        next_stale_network(networks, statuses, from + 1)
    }
}

/// Collects the state of each VNI in a listing.
pub fn seen_vni_states(networks: &Vec<VirtualNetwork>) -> (r: HashMap<u32, State>)
    ensures
        states_view(r@) == listed_states(networks.deep_view()),
{
    let ghost views = networks.deep_view();
    let mut seen: HashMap<u32, State> = HashMap::new();
    let mut i: usize = 0;
    assert(states_view(seen@) =~= listed_states(views.take(0)));
    while i < networks.len()
        invariant
            views == networks.deep_view(),
            i <= networks.len(),
            states_view(seen@) == listed_states(views.take(i as int)),
        decreases networks.len() - i,
    {
        let network = &networks[i];
        let ghost before = seen@;
        assert(views.take(i + 1).drop_last() =~= views.take(i as int));
        assert(views.take(i + 1).last() == network.deep_view());
        if let Some(network_spec) = &network.spec {
            let state = match &network.status {
                Some(status) => match &status.state {
                    Some(state) => state.clone(),
                    None => State::error("Response is missing state", "list_virtual_networks"),
                },
                None => State::error("Response is missing state", "list_virtual_networks"),
            };
            seen.insert(network_spec.vni, state);
            assert(states_view(seen@) =~= states_view(before).insert(
                network_spec.vni,
                state.deep_view(),
            ));
        }
        i = i + 1;
    }
    assert(views.take(i as int) =~= views);
    seen
}

/// Looks at the needs of the attachments from `from` on, up to the first whose network must be
/// created. Returns its position, or the number of attachments.
pub fn settle_known_networks(
    statuses: &mut Vec<AstraAttachmentStatus>,
    known: &HashMap<u32, State>,
    from: usize,
) -> (r: usize)
    requires
        from <= old(statuses).len(),
    ensures
        r == next_creation(old(statuses).deep_view(), states_view(known@), from as int),
        final(statuses).deep_view() == networks_settled(
            old(statuses).deep_view(),
            states_view(known@),
            from as int,
            r as int,
        ),
{
    let ghost start = statuses.deep_view();
    let ghost states = states_view(known@);
    let mut i: usize = from;
    assert(statuses.deep_view() =~= networks_settled(start, states, from as int, i as int));
    while i < statuses.len()
        invariant
            from <= i <= statuses.len(),
            start == old(statuses).deep_view(),
            states == states_view(known@),
            start.len() == statuses.len(),
            statuses.deep_view() == networks_settled(start, states, from as int, i as int),
            next_creation(start, states, from as int) == next_creation(start, states, i as int),
        decreases statuses.len() - i,
    {
        let ghost before = statuses.deep_view();
        assert(before[i as int] == start[i as int]);
        let vni = statuses[i].vni;
        if vni != 0 {
            let key: u32 = vni as u32;
            match known.get(&key) {
                None => {
                    return i;
                },
                Some(state) => {
                    if state.phase != Phase::Ready {
                        set_astra_attachment_status_with_weave_ew_vpc_not_ready(
                            &mut statuses[i],
                            state.clone(),
                        );
                    }
                },
            }
        }
        assert(statuses.deep_view() =~= before.update(
            i as int,
            network_settled(start[i as int], states),
        ));
        assert(statuses.deep_view() =~= networks_settled(start, states, from as int, i + 1));
        i = i + 1;
    }
    i
}

/// The request that creates the network of an attachment.
pub fn create_virtual_network_request(
    astra_attachment_status: &AstraAttachmentStatus,
) -> (r: CreateVirtualNetworkRequest)
    ensures
        r.deep_view() == network_creation(astra_attachment_status.deep_view()),
        r.spec is Some,
        r.spec->0.vni == astra_attachment_status.vni as u32,
        r.spec->0.subnet_ipv4 is Some,
        r.spec->0.subnet_ipv4->0@ == astra_attachment_status.subnet_ipv4@ + "/"@ + decimal(
            astra_attachment_status.subnet_mask as int,
        ),
        r.spec->0.subnet_ipv6 is None,
{
    let mut subnet = astra_attachment_status.subnet_ipv4.clone();
    subnet.append("/");
    append_signed(&mut subnet, astra_attachment_status.subnet_mask as i64);
    CreateVirtualNetworkRequest {
        metadata: Some(
            ObjectMetadata {
                id: Some(astra_weave_ew_vpc_virtual_network_id(astra_attachment_status.vni)),
                creation_timestamp: Some(creation_timestamp()),
                deletion_timestamp: None,
                user_data: HashMap::new(),
            },
        ),
        spec: Some(
            VirtualNetworkSpec {
                vni: astra_attachment_status.vni as u32,
                subnet_ipv4: Some(subnet),
                subnet_ipv6: None,
            },
        ),
    }
}

/// Takes note of what the call that creates the network of an attachment came back with.
pub fn record_created_network(
    astra_attachment_status: &mut AstraAttachmentStatus,
    known: &mut HashMap<u32, State>,
    reply: NetworkCreated,
)
    ensures
        final(astra_attachment_status).deep_view() == reporting_unready(
            old(astra_attachment_status).deep_view(),
            created_network_state(network_created_view(reply)),
        ),
        states_view(final(known)@) == known_after_creation(
            states_view(old(known)@),
            old(astra_attachment_status).vni as u32,
            network_created_view(reply),
        ),
        final(astra_attachment_status).deep_view().ready() <==> old(
            astra_attachment_status,
        ).deep_view().ready() && (reply matches Ok(Some(network)) && network.status is Some
            && network.status->0.state is Some && network.status->0.state->0.phase
            == Phase::Ready),
{
    let ghost before = known@;
    let state = match reply {
        Ok(Some(network)) => {
            let state = match network.status {
                Some(status) => match status.state {
                    Some(state) => state,
                    None => State::error("Response is missing state", "create_virtual_network"),
                },
                None => State::error("Response is missing state", "create_virtual_network"),
            };
            known.insert(astra_attachment_status.vni as u32, state.clone());
            assert(states_view(known@) =~= states_view(before).insert(
                astra_attachment_status.vni as u32,
                state.deep_view(),
            ));
            state
        },
        Ok(None) => State::error("Response is missing virtual network", "create_virtual_network"),
        Err(error) => State {
            phase: Phase::Error,
            reason: "API failure".to_owned(),
            message: "create_virtual_network: ".to_owned().concat(error.as_str()),
        },
    };
    if state.phase != Phase::Ready {
        set_astra_attachment_status_with_weave_ew_vpc_not_ready(astra_attachment_status, state);
    }
}

/// Whether some attachment wants a network.
pub fn is_network_wanted(
    network: &VirtualNetwork,
    statuses: &Vec<AstraAttachmentStatus>,
) -> (r: bool)
    ensures
        r == network_wanted(network.deep_view(), statuses.deep_view()),
{
    let ghost views = statuses.deep_view();
    if let Some(network_spec) = &network.spec {
        let mut k: usize = 0;
        while k < statuses.len()
            invariant
                views == statuses.deep_view(),
                k <= statuses.len(),
                network.deep_view().vni() == Some(network_spec.vni),
                forall|j: int|
                    0 <= j < k ==> network.deep_view().vni() != Some(
                        (#[trigger] views[j]).vni as u32,
                    ),
            decreases statuses.len() - k,
        {
            assert(views[k as int] == statuses@[k as int].deep_view());
            if network_spec.vni == statuses[k].vni as u32 {
                return true;
            }
            k = k + 1;
        }
    }
    false
}

/// Finds the first stale network from `from` on: its position and the request that deletes it.
pub fn find_stale_network(
    networks: &Vec<VirtualNetwork>,
    statuses: &Vec<AstraAttachmentStatus>,
    from: usize,
) -> (r: Option<(usize, DeleteVirtualNetworkRequest)>)
    requires
        from <= networks.len(),
    ensures
        ({
            let next = next_stale_network(
                networks.deep_view(),
                statuses.deep_view(),
                from as int,
            );
            match r {
                Some((position, request)) => position == next && next < networks.len() && Some(
                    request.id@,
                ) == usable_id(networks.deep_view()[next].metadata),
                None => next == networks.len(),
            }
        }),
{
    let ghost views = networks.deep_view();
    let mut i: usize = from;
    while i < networks.len()
        invariant
            views == networks.deep_view(),
            from <= i <= networks.len(),
            next_stale_network(views, statuses.deep_view(), from as int) == next_stale_network(
                views,
                statuses.deep_view(),
                i as int,
            ),
        decreases networks.len() - i,
    {
        let network = &networks[i];
        assert(views[i as int] == network.deep_view());
        let invalid = match &network.spec {
            Some(network_spec) => network_spec.vni == 0,
            None => false,
        };
        if !invalid && !is_network_wanted(network, statuses) {
            if let Some(id) = usable_object_id(&network.metadata) {
                return Some((i, DeleteVirtualNetworkRequest { id }));
            }
        }
        i = i + 1;
    }
    None
}

/// The first attachment whose network must be created is what its name says.
pub proof fn lemma_next_creation(
    statuses: Seq<AstraAttachmentStatusView>,
    known: Map<u32, StateView>,
    from: int,
)
    requires
        0 <= from <= statuses.len(),
    ensures
        ({
            let next = next_creation(statuses, known, from);
            &&& from <= next <= statuses.len()
            &&& next < statuses.len() ==> network_need(statuses[next], known) is Creation
            &&& forall|k: int|
                from <= k < next ==> !(#[trigger] network_need(statuses[k], known) is Creation)
        }),
    decreases statuses.len() - from,
{
    if from < statuses.len() && !(network_need(statuses[from], known) is Creation) {
        lemma_next_creation(statuses, known, from + 1);
    }
}

/// The first stale network is what its name says.
pub proof fn lemma_next_stale_network(
    networks: Seq<VirtualNetworkView>,
    statuses: Seq<AstraAttachmentStatusView>,
    from: int,
)
    requires
        0 <= from <= networks.len(),
    ensures
        ({
            let next = next_stale_network(networks, statuses, from);
            &&& from <= next <= networks.len()
            &&& next < networks.len() ==> network_stale(networks[next], statuses)
            &&& forall|k: int|
                from <= k < next ==> !network_stale(#[trigger] networks[k], statuses)
        }),
    decreases networks.len() - from,
{
    if from < networks.len() && !network_stale(networks[from], statuses) {
        lemma_next_stale_network(networks, statuses, from + 1);
    }
}

/// Every VNI in a listing is known.
pub proof fn lemma_listed_vni_is_known(networks: Seq<VirtualNetworkView>, p: int)
    requires
        0 <= p < networks.len(),
        networks[p].vni() is Some,
    ensures
        listed_states(networks).contains_key(networks[p].vni()->0),
    decreases networks.len(),
{
    if p < networks.len() - 1 {
        lemma_listed_vni_is_known(networks.drop_last(), p);
    }
}

} // verus!
