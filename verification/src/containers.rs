//! The list of containers.
use crate::metrics::{option_text, views, ContainerInfo, ContainerInfoView, Metrics, MetricsView};
use crate::text::{
    law_only_leading_slashes_removed, same_text, texts, trim_leading_slashes, without_leading_slashes,
};
use vstd::prelude::*;

verus! {

/// One entry of the list of containers.
#[derive(Debug)]
pub struct Container {
    pub id: Option<String>,
    pub names: Option<Vec<String>>,
    pub state: Option<String>,
    pub status: Option<String>,
}

#[verifier::ext_equal]
pub struct ContainerView {
    pub id: Option<Seq<char>>,
    pub names: Option<Seq<Seq<char>>>,
    pub state: Option<Seq<char>>,
    pub status: Option<Seq<char>>,
}

impl View for Container {
    type V = ContainerView;

    open spec fn view(&self) -> ContainerView {
        ContainerView {
            id: option_text(self.id),
            names: match self.names {
                Some(names) => Some(texts(names@)),
                None => None,
            },
            state: option_text(self.state),
            status: option_text(self.status),
        }
    }
}

/// A text, or the empty text where there is none.
pub open spec fn or_empty(text: Option<Seq<char>>) -> Seq<char> {
    match text {
        Some(t) => t,
        None => Seq::empty(),
    }
}

impl ContainerView {
    /// Only the state `running` counts as up.
    pub open spec fn running(self) -> bool {
        or_empty(self.state) == "running"@
    }

    /// The first name without its leading slashes.
    pub open spec fn name(self) -> Seq<char> {
        match self.names {
            Some(names) => if names.len() > 0 {
                without_leading_slashes(names[0])
            } else {
                Seq::empty()
            },
            None => Seq::empty(),
        }
    }

    pub open spec fn info(self) -> ContainerInfoView {
        ContainerInfoView {
            name: self.name(),
            state: or_empty(self.state),
            status: or_empty(self.status),
        }
    }
}

/// The running containers of a list, in its order.
pub open spec fn running_containers(containers: Seq<ContainerView>) -> Seq<ContainerView> {
    containers.filter(|c: ContainerView| c.running())
}

/// The identifiers of containers, in order.
pub open spec fn container_ids(containers: Seq<ContainerView>) -> Seq<Seq<char>> {
    Seq::new(containers.len(), |i: int| or_empty(containers[i].id))
}

/// The containers by identifier; of two with one identifier the later counts.
pub open spec fn container_info(containers: Seq<ContainerView>) -> Map<
    Seq<char>,
    ContainerInfoView,
>
    decreases containers.len(),
{
    if containers.len() == 0 {
        Map::empty()
    } else {
        container_info(containers.drop_last()).insert(
            or_empty(containers.last().id),
            containers.last().info(),
        )
    }
}

/// The number of containers that run.
pub open spec fn up_count(containers: Seq<ContainerView>) -> int {
    running_containers(containers).len() as int
}

/// The number of containers that do not run.
pub open spec fn down_count(containers: Seq<ContainerView>) -> int {
    containers.len() - up_count(containers)
}

/// Whether both numbers fit into their counters.
pub open spec fn counts_fit(containers: Seq<ContainerView>) -> bool {
    up_count(containers) <= i32::MAX && down_count(containers) <= i32::MAX
}

impl MetricsView {
    /// The state once a list of containers has been taken in.
    pub open spec fn with_containers(self, containers: Seq<ContainerView>) -> MetricsView {
        MetricsView {
            containers_up: up_count(containers),
            containers_down: down_count(containers),
            ids: container_ids(running_containers(containers)),
            info: container_info(running_containers(containers)),
            ..self
        }
    }
}

/// The text, or the empty text where there is none.
pub(crate) fn text_or_empty(text: &Option<String>) -> (found: String)
    ensures
        found@ == or_empty(option_text(*text)),
{
    match text {
        Some(t) => t.clone(),
        None => String::new(),
    }
}

fn first_name(names: &Option<Vec<String>>) -> (name: String)
    ensures
        name@ == (match *names {
            Some(all) => if all@.len() > 0 {
                without_leading_slashes(all@[0]@)
            } else {
                Seq::empty()
            },
            None => Seq::empty(),
        }),
{
    match names {
        Some(all) => {
            if all.len() > 0 {
                trim_leading_slashes(all[0].as_str())
            } else {
                String::new()
            }
        },
        None => String::new(),
    }
}

proof fn lemma_running_step(containers: Seq<ContainerView>, i: int)
    requires
        0 <= i < containers.len(),
    ensures
        running_containers(containers.take(i + 1)) == if containers[i].running() {
            running_containers(containers.take(i)).push(containers[i])
        } else {
            running_containers(containers.take(i))
        },
        running_containers(containers.take(i)).len() <= i,
{
    reveal(Seq::filter);
    assert(containers.take(i + 1).drop_last() =~= containers.take(i));
    containers.take(i).lemma_filter_len(|c: ContainerView| c.running());
}

/// The counts only grow along the list.
proof fn lemma_counts_grow(containers: Seq<ContainerView>, i: int)
    requires
        0 <= i <= containers.len(),
    ensures
        up_count(containers.take(i)) <= up_count(containers),
        down_count(containers.take(i)) <= down_count(containers),
    decreases containers.len() - i,
{
    if i == containers.len() {
        assert(containers.take(i) =~= containers);
    } else {
        lemma_counts_grow(containers, i + 1);
        lemma_running_step(containers, i);
    }
}

/// Whether a list of containers can be counted: whether neither the containers
/// that run nor those that do not are too many for a counter.
pub fn containers_countable(containers: &Vec<Container>) -> (countable: bool)
    ensures
        countable == counts_fit(views(containers@)),
{
    let mut up: usize = 0;
    let mut down: usize = 0;
    let running = "running";
    let ghost all = views(containers@);
    assert(all.take(0) =~= Seq::<ContainerView>::empty());
    reveal(Seq::filter);
    for i in 0..containers.len()
        invariant
            all == views(containers@),
            running@ == "running"@,
            up == up_count(all.take(i as int)),
            down == down_count(all.take(i as int)),
            up + down == i,
    {
        proof {
            lemma_running_step(all, i as int);
        }
        let state = text_or_empty(&containers[i].state);
        if same_text(state.as_str(), running) {
            up += 1;
        } else {
            down += 1;
        }
    }
    assert(all.take(all.len() as int) =~= all);
    up <= i32::MAX as usize && down <= i32::MAX as usize
}

impl Metrics {
    /// Takes in the list of containers: counts those that run and those that
    /// do not, and keeps the identifiers and names of those that run.
    pub fn get_containers(&mut self, containers: &Vec<Container>)
        requires
            counts_fit(views(containers@)),
        ensures
            final(self)@ == old(self)@.with_containers(views(containers@)),
    {
        self.containers_up = 0;
        self.containers_down = 0;
        self.info.clear();
        self.ids.clear();
        let running = "running";
        let ghost all = views(containers@);
        let ghost before = old(self)@;
        proof {
            reveal(Seq::filter);
            assert(all.take(0) =~= Seq::<ContainerView>::empty());
            assert(self@ =~= before.with_containers(all.take(0)));
        }
        for i in 0..containers.len()
            invariant
                all == views(containers@),
                running@ == "running"@,
                counts_fit(all),
                self@ == before.with_containers(all.take(i as int)),
        {
            proof {
                lemma_running_step(all, i as int);
                lemma_counts_grow(all, i + 1);
            }
            let container = &containers[i];
            let state = text_or_empty(&container.state);
            let id = text_or_empty(&container.id);
            if same_text(state.as_str(), running) {
                let ghost previous = running_containers(all.take(i as int));
                let ghost listed = self.ids@;
                self.containers_up = self.containers_up + 1;
                let name = first_name(&container.names);
                let status = text_or_empty(&container.status);
                let info = ContainerInfo { name, state, status };
                self.info.insert(id.clone(), info);
                self.ids.push(id);
                proof {
                    let next = running_containers(all.take(i + 1));
                    assert(next.drop_last() =~= previous);
                    assert(info@ == all[i as int].info());
                    assert(self@.info =~= container_info(next));
                    assert(self@.ids =~= texts(listed).push(or_empty(all[i as int].id)));
                    assert(container_ids(next) =~= container_ids(previous).push(
                        or_empty(all[i as int].id),
                    ));
                    assert(self@ =~= before.with_containers(all.take(i + 1)));
                }
            } else {
                self.containers_down = self.containers_down + 1;
                assert(self@ =~= before.with_containers(all.take(i + 1)));
            }
        }
        assert(all.take(all.len() as int) =~= all);
    }
}

// ---------------------------------------------------------------------------
// Laws.

/// Every container of a list counts once, as up or as down.
pub proof fn law_every_container_counted(state: MetricsView, containers: Seq<ContainerView>)
    ensures
        state.with_containers(containers).containers_up + state.with_containers(
            containers,
        ).containers_down == containers.len(),
        0 <= state.with_containers(containers).containers_up,
        0 <= state.with_containers(containers).containers_down,
{
    containers.lemma_filter_len(|c: ContainerView| c.running());
}

/// A container is known exactly where its identifier is listed, and it runs.
pub proof fn law_known_containers_run(containers: Seq<ContainerView>, id: Seq<char>)
    requires
        forall|i: int| 0 <= i < containers.len() ==> (#[trigger] containers[i]).running(),
    ensures
        container_info(containers).contains_key(id) == container_ids(containers).contains(id),
        container_info(containers).contains_key(id) ==> container_info(containers)[id].state
            == "running"@,
    decreases containers.len(),
{
    let ids = container_ids(containers);
    if containers.len() > 0 {
        let before = containers.drop_last();
        let n = before.len() as int;
        assert forall|i: int| 0 <= i < n implies (#[trigger] before[i]).running() by {
            assert(before[i] == containers[i]);
        }
        law_known_containers_run(before, id);
        let earlier = container_ids(before);
        assert(containers[n].running());
        assert(ids =~= earlier.push(or_empty(containers[n].id)));
        if earlier.contains(id) {
            let i = choose|i: int| 0 <= i < earlier.len() && earlier[i] == id;
            assert(ids[i] == id);
        }
        if or_empty(containers[n].id) == id {
            assert(ids[n] == id);
        }
        if ids.contains(id) {
            let i = choose|i: int| 0 <= i < ids.len() && ids[i] == id;
            if i < n {
                assert(earlier[i] == id);
            }
        }
    }
}

/// The view of an entry shows each of its fields: a text that is missing is
/// missing there too, and the names keep their order.
pub proof fn law_entry_shown(container: Container, i: int)
    ensures
        container@.id is Some == container.id is Some,
        container.id matches Some(id) ==> container@.id == Some(id@),
        container@.state is Some == container.state is Some,
        container.state matches Some(state) ==> container@.state == Some(state@),
        container@.status is Some == container.status is Some,
        container.status matches Some(status) ==> container@.status == Some(status@),
        container@.names is Some == container.names is Some,
        container.names matches Some(names) ==> (container@.names matches Some(shown)
            && shown.len() == names@.len() && (0 <= i < names@.len() ==> shown[i] == names@[i]@)),
{
}

/// An empty list leaves no container known, and nothing else is touched.
pub proof fn law_empty_list(state: MetricsView)
    ensures
        state.with_containers(Seq::empty()) == (MetricsView {
            containers_up: 0,
            containers_down: 0,
            ids: Seq::empty(),
            info: Map::empty(),
            ..state
        }),
{
    reveal(Seq::filter);
    let none = Seq::<ContainerView>::empty();
    assert(running_containers(none) =~= none);
    assert(container_ids(none) =~= Seq::<Seq<char>>::empty());
}

/// A further container whose state is `running` counts as up: its identifier
/// is listed last, and what is kept under it is its first name from the first
/// character that is no slash, its state and its status. A missing identifier,
/// name or status is the empty text.
pub proof fn law_running_container_listed(
    state: MetricsView,
    containers: Seq<ContainerView>,
    container: ContainerView,
    id: Seq<char>,
)
    requires
        container.state == Some("running"@),
        container.id == Some(id) || container.id is None && id == Seq::<char>::empty(),
    ensures
        ({
            let before = state.with_containers(containers);
            let after = state.with_containers(containers.push(container));
            let info = after.info[id];
            &&& after.containers_up == before.containers_up + 1
            &&& after.containers_down == before.containers_down
            &&& after.ids == before.ids.push(id)
            &&& after.info == before.info.insert(id, info)
            &&& info.state == "running"@
            &&& container.status matches Some(status) ==> info.status == status
            &&& container.status is None ==> info.status == Seq::<char>::empty()
            &&& container.names is None ==> info.name == Seq::<char>::empty()
            &&& container.names matches Some(names) ==> if names.len() == 0 {
                info.name == Seq::<char>::empty()
            } else {
                let slashes = names[0].len() - info.name.len();
                &&& slashes >= 0
                &&& info.name == names[0].skip(slashes)
                &&& forall|i: int| 0 <= i < slashes ==> names[0][i] == '/'
                &&& info.name.len() > 0 ==> info.name[0] != '/'
            }
            &&& (MetricsView {
                containers_up: before.containers_up,
                containers_down: before.containers_down,
                ids: before.ids,
                info: before.info,
                ..after
            }) == before
        }),
{
    let all = containers.push(container);
    let n = containers.len() as int;
    assert(all.take(n) =~= containers);
    assert(all.take(n + 1) =~= all);
    lemma_running_step(all, n);
    let previous = running_containers(containers);
    let next = running_containers(all);
    assert(next == previous.push(container));
    assert(next.drop_last() =~= previous);
    assert(container_ids(next) =~= container_ids(previous).push(id));
    assert(container_info(next) == container_info(previous).insert(id, container.info()));
    if let Some(names) = container.names {
        if names.len() > 0 {
            law_only_leading_slashes_removed(names[0]);
        }
    }
}

/// A further container in any other state, or in none, counts as down and is
/// not kept.
pub proof fn law_stopped_container_listed(
    state: MetricsView,
    containers: Seq<ContainerView>,
    container: ContainerView,
)
    requires
        container.state != Some("running"@),
    ensures
        ({
            let before = state.with_containers(containers);
            let after = state.with_containers(containers.push(container));
            after == (MetricsView { containers_down: before.containers_down + 1, ..before })
        }),
{
    let all = containers.push(container);
    let n = containers.len() as int;
    assert(all.take(n) =~= containers);
    assert(all.take(n + 1) =~= all);
    lemma_running_step(all, n);
    reveal_strlit("running");
    assert("running"@.len() == 7);
}

/// The numbers of containers that are up and down are those of the containers
/// in the list whose state is `running` and of all others.
pub proof fn law_containers_counted_by_state(state: MetricsView, containers: Seq<ContainerView>)
    ensures
        state.with_containers(containers).containers_up == containers.filter(
            |c: ContainerView| c.state == Some("running"@),
        ).len(),
        state.with_containers(containers).containers_down == containers.filter(
            |c: ContainerView| c.state != Some("running"@),
        ).len(),
    decreases containers.len(),
{
    let up = |c: ContainerView| c.state == Some("running"@);
    let down = |c: ContainerView| c.state != Some("running"@);
    reveal(Seq::filter);
    if containers.len() == 0 {
        assert(containers =~= Seq::<ContainerView>::empty());
        law_empty_list(state);
    } else {
        let before = containers.drop_last();
        let last = containers.last();
        law_containers_counted_by_state(state, before);
        assert(before.push(last) =~= containers);
        if last.state == Some("running"@) {
            let id = or_empty(last.id);
            law_running_container_listed(state, before, last, id);
            assert(up(last) && !down(last));
        } else {
            law_stopped_container_listed(state, before, last);
            assert(!up(last) && down(last));
        }
    }
}

/// What is kept of a running container is its own: its first name from the
/// first character that is no slash, its state and its status, where no later
/// running container of the list has its identifier.
pub proof fn law_last_of_identifier_kept(
    state: MetricsView,
    containers: Seq<ContainerView>,
    i: int,
    id: Seq<char>,
)
    requires
        0 <= i < containers.len(),
        containers[i].state == Some("running"@),
        containers[i].id == Some(id),
        forall|j: int|
            i < j < containers.len() && (#[trigger] containers[j]).state == Some("running"@)
                ==> containers[j].id != Some(id) && (containers[j].id is Some || id.len() > 0),
    ensures
        ({
            let kept = state.with_containers(containers).info;
            &&& kept.contains_key(id)
            &&& kept[id].state == "running"@
            &&& containers[i].status matches Some(status) ==> kept[id].status == status
            &&& containers[i].names matches Some(names) ==> names.len() > 0 ==> {
                let slashes = names[0].len() - kept[id].name.len();
                &&& slashes >= 0
                &&& kept[id].name == names[0].skip(slashes)
                &&& forall|j: int| 0 <= j < slashes ==> names[0][j] == '/'
                &&& kept[id].name.len() > 0 ==> kept[id].name[0] != '/'
            }
        }),
    decreases containers.len(),
{
    let before = containers.drop_last();
    let last = containers.last();
    assert(before.push(last) =~= containers);
    if i == before.len() {
        law_running_container_listed(state, before, last, id);
    } else {
        assert forall|j: int|
            i < j < before.len() && (#[trigger] before[j]).state == Some(
                "running"@,
            ) implies before[j].id != Some(id) && (before[j].id is Some || id.len() > 0) by {
            assert(before[j] == containers[j]);
        }
        assert(before[i] == containers[i]);
        law_last_of_identifier_kept(state, before, i, id);
        if last.state == Some("running"@) {
            assert(containers[containers.len() - 1] == last);
            law_running_container_listed(state, before, last, or_empty(last.id));
        } else {
            law_stopped_container_listed(state, before, last);
        }
    }
}

/// A container that is listed under one name with a slash before it is known
/// by that name without the slash.
pub proof fn law_slash_before_name_dropped(
    state: MetricsView,
    containers: Seq<ContainerView>,
    container: ContainerView,
    id: Seq<char>,
    name: Seq<char>,
)
    requires
        container.state == Some("running"@),
        container.id == Some(id),
        container.names == Some(seq![seq!['/'] + name]),
        name.len() > 0,
        name[0] != '/',
    ensures
        state.with_containers(containers.push(container)).info[id].name == name,
{
    law_running_container_listed(state, containers, container, id);
    let listed = seq!['/'] + name;
    let kept = state.with_containers(containers.push(container)).info[id].name;
    let slashes = listed.len() - kept.len();
    assert(listed[0] == '/');
    assert(listed[1] == name[0]);
    if slashes == 0 {
        assert(kept =~= listed);
    }
    if slashes > 1 {
        assert(listed[1] == '/');
    }
    assert(listed.skip(1) =~= name);
}

/// A list can be counted where neither the containers whose state is `running`
/// nor all others are more than the largest 32-bit number.
pub proof fn law_countable_lists(containers: Seq<ContainerView>)
    ensures
        counts_fit(containers) <==> {
            &&& containers.filter(|c: ContainerView| c.state == Some("running"@)).len()
                <= 0x7fff_ffff
            &&& containers.filter(|c: ContainerView| c.state != Some("running"@)).len()
                <= 0x7fff_ffff
        },
{
    let state = arbitrary::<MetricsView>();
    law_containers_counted_by_state(state, containers);
}

/// A list can be counted where it has at most as many running containers, and
/// at most as many others, as the largest 32-bit number.
pub proof fn law_countability_told(containers: &Vec<Container>, countable: bool)
    requires
        call_ensures(containers_countable, (containers,), countable),
    ensures
        countable <==> {
            let all = views(containers@);
            &&& all.filter(|c: ContainerView| c.state == Some("running"@)).len() <= 0x7fff_ffff
            &&& all.filter(|c: ContainerView| c.state != Some("running"@)).len() <= 0x7fff_ffff
        },
{
    law_countable_lists(views(containers@));
}

/// Once a list is taken in, a running container that no later running one
/// replaces is known by its first name, from the first character that is no
/// slash, and by its state and status.
pub proof fn law_listed_container_known(
    metrics: &mut Metrics,
    containers: &Vec<Container>,
    i: int,
    id: String,
)
    requires
        call_ensures(Metrics::get_containers, (metrics, containers), ()),
        0 <= i < containers@.len(),
        containers@[i].state matches Some(state) && state@ == "running"@,
        containers@[i].id == Some(id),
        id@.len() > 0,
        forall|j: int|
            i < j < containers@.len() ==> !(((#[trigger] containers@[j]).state matches Some(state)
                && state@ == "running"@) && (containers@[j].id matches Some(other) && other@
                == id@)),
    ensures
        final(metrics).info@.contains_key(id@),
        final(metrics).info@[id@].state@ == "running"@,
        containers@[i].status matches Some(status) ==> final(metrics).info@[id@].status@ == status@,
        containers@[i].names matches Some(names) ==> names@.len() > 0 ==> {
            let first = names@[0]@;
            let name = final(metrics).info@[id@].name@;
            let slashes = first.len() - name.len();
            &&& slashes >= 0
            &&& name == first.skip(slashes)
            &&& forall|j: int| 0 <= j < slashes ==> first[j] == '/'
            &&& name.len() > 0 ==> name[0] != '/'
        },
{
    let all = views(containers@);
    assert(all[i] == containers@[i]@);
    assert forall|j: int|
        i < j < all.len() && (#[trigger] all[j]).state == Some("running"@) implies all[j].id != Some(
        id@,
    ) && (all[j].id is Some || id@.len() > 0) by {
        assert(all[j] == containers@[j]@);
    }
    law_last_of_identifier_kept(old(metrics)@, all, i, id@);
    let known = final(metrics).info@;
    assert(final(metrics)@.info.contains_key(id@));
    assert(final(metrics)@.info[id@] == known[id@]@);
    if let Some(names) = containers@[i].names {
        if names@.len() > 0 {
            assert(all[i].names == Some(texts(names@)));
            assert(texts(names@)[0] == names@[0]@);
        }
    }
}

/// Once a list is taken in, the containers whose state is `running` are counted
/// as up and all others as down.
pub proof fn law_listed_containers_counted(metrics: &mut Metrics, containers: &Vec<Container>)
    requires
        call_ensures(Metrics::get_containers, (metrics, containers), ()),
    ensures
        final(metrics).containers_up == containers@.filter(
            |c: Container| c.state matches Some(state) && state@ == "running"@,
        ).len(),
        final(metrics).containers_down == containers@.filter(
            |c: Container| !(c.state matches Some(state) && state@ == "running"@),
        ).len(),
        final(metrics).ids@.len() == final(metrics).containers_up,
{
    let all = views(containers@);
    law_containers_counted_by_state(old(metrics)@, all);
    lemma_counted_alike(
        containers@,
        |c: Container| c.state matches Some(state) && state@ == "running"@,
        |c: ContainerView| c.state == Some("running"@),
    );
    lemma_counted_alike(
        containers@,
        |c: Container| !(c.state matches Some(state) && state@ == "running"@),
        |c: ContainerView| c.state != Some("running"@),
    );
    assert(final(metrics)@.ids.len() == final(metrics).ids@.len());
}

proof fn lemma_counted_alike(
    containers: Seq<Container>,
    pick: spec_fn(Container) -> bool,
    pick_view: spec_fn(ContainerView) -> bool,
)
    requires
        forall|c: Container| #[trigger] pick(c) == pick_view(c@),
    ensures
        containers.filter(pick).len() == views(containers).filter(pick_view).len(),
    decreases containers.len(),
{
    reveal(Seq::filter);
    if containers.len() > 0 {
        lemma_counted_alike(containers.drop_last(), pick, pick_view);
        assert(views(containers).drop_last() =~= views(containers.drop_last()));
        assert(views(containers).last() == containers.last()@);
    }
}

} // verus!
