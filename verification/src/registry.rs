use vstd::prelude::*;
use crate::config::{Config, ExporterEntry, PipelineConfig};
use crate::error::{IngestionError, is_config_error};
use crate::pipeline::{ExporterGroup, Pipeline, DEFAULT_CHANNEL_CAPACITY};
use crate::table::NamedTable;

verus! {

#[derive(PartialEq, Eq, Structural, Clone, Copy, Debug)]
pub enum ComponentKind {
    Receiver,
    Processor,
    Exporter,
}

pub open spec fn kind_word(k: ComponentKind) -> Seq<char> {
    match k {
        ComponentKind::Receiver => "receiver"@,
        ComponentKind::Processor => "processor"@,
        ComponentKind::Exporter => "exporter"@,
    }
}

/// `no <kind> registered for '<name>'`
pub open spec fn unregistered_message(k: ComponentKind, name: Seq<char>) -> Seq<char> {
    "no "@ + kind_word(k) + " registered for '"@ + name + "'"@
}

/// `<kind> '<name>' missing from config`
pub open spec fn unconfigured_message(k: ComponentKind, name: Seq<char>) -> Seq<char> {
    kind_word(k) + " '"@ + name + "' missing from config"@
}

/// The names an exporter entry refers to, in order.
pub open spec fn entry_names(e: ExporterEntry) -> Seq<Seq<char>> {
    match e {
        ExporterEntry::Flat(n) => seq![n@],
        ExporterEntry::OneOf(v) => names_of(v@),
    }
}

/// The texts of a list of names.
pub open spec fn names_of(v: Seq<String>) -> Seq<Seq<char>> {
    v.map_values(|s: String| s@)
}

/// Static component registry: factories registered by name at startup,
/// used to build pipelines from a configuration. A factory is a function
/// from a component's raw configuration to the component or its failure.
pub struct ComponentRegistry<R, P, E> {
    pub receivers: NamedTable<R>,
    pub processors: NamedTable<P>,
    pub exporters: NamedTable<E>,
}

// ---------------------------------------------------------------------------
// What a build gives
// ---------------------------------------------------------------------------

/// Every factory of the table may be called on any configuration value.
pub open spec fn callable<C, F: Fn(&serde_yaml::Value) -> Result<C, anyhow::Error>>(fs: Map<Seq<char>, F>) -> bool {
    forall|n: Seq<char>, raw: &serde_yaml::Value| fs.contains_key(n) ==> #[trigger] call_requires(fs[n], (raw,))
}

/// What building component `name` of kind `k` may give: the refusal that
/// names the first missing link (no factory registered, then no
/// configuration entry), else what the factory registered under `name`
/// returns for the configuration entry of `name`, its failure passed on as
/// a component error.
pub open spec fn component_result<C, F: Fn(&serde_yaml::Value) -> Result<C, anyhow::Error>>(
    fs: Map<Seq<char>, F>,
    raws: Map<Seq<char>, serde_yaml::Value>,
    k: ComponentKind,
    name: Seq<char>,
    r: Result<C, IngestionError>,
) -> bool {
    if !fs.contains_key(name) {
        is_config_error(r, unregistered_message(k, name))
    } else if !raws.contains_key(name) {
        is_config_error(r, unconfigured_message(k, name))
    } else {
        match r {
            Ok(c) => call_ensures(fs[name], (&raws[name],), Ok(c)),
            Err(IngestionError::Component(e)) => call_ensures(fs[name], (&raws[name],), Err(e)),
            Err(_) => false,
        }
    }
}

/// `c` is a component that building `name` may give.
pub open spec fn builds<C, F: Fn(&serde_yaml::Value) -> Result<C, anyhow::Error>>(
    fs: Map<Seq<char>, F>, raws: Map<Seq<char>, serde_yaml::Value>, k: ComponentKind, name: Seq<char>, c: C,
) -> bool {
    component_result(fs, raws, k, name, Ok(c))
}

/// `e` is an error that building `name` may end in.
pub open spec fn fails<C, F: Fn(&serde_yaml::Value) -> Result<C, anyhow::Error>>(
    fs: Map<Seq<char>, F>, raws: Map<Seq<char>, serde_yaml::Value>, k: ComponentKind, name: Seq<char>, e: IngestionError,
) -> bool {
    component_result::<C, F>(fs, raws, k, name, Err(e))
}

/// Building `name` may give a component.
pub open spec fn buildable<C, F: Fn(&serde_yaml::Value) -> Result<C, anyhow::Error>>(
    fs: Map<Seq<char>, F>, raws: Map<Seq<char>, serde_yaml::Value>, k: ComponentKind, name: Seq<char>,
) -> bool {
    exists|c: C| #[trigger] builds(fs, raws, k, name, c)
}

/// `cs` are components that building the names in order may give, one each.
pub open spec fn all_build<C, F: Fn(&serde_yaml::Value) -> Result<C, anyhow::Error>>(
    fs: Map<Seq<char>, F>, raws: Map<Seq<char>, serde_yaml::Value>, k: ComponentKind, names: Seq<Seq<char>>, cs: Seq<C>,
) -> bool {
    &&& cs.len() == names.len()
    &&& forall|i: int| 0 <= i < names.len() ==> #[trigger] builds(fs, raws, k, names[i], cs[i])
}

/// Every name may be built.
pub open spec fn all_buildable<C, F: Fn(&serde_yaml::Value) -> Result<C, anyhow::Error>>(
    fs: Map<Seq<char>, F>, raws: Map<Seq<char>, serde_yaml::Value>, k: ComponentKind, names: Seq<Seq<char>>,
) -> bool {
    forall|i: int| 0 <= i < names.len() ==> #[trigger] buildable::<C, F>(fs, raws, k, names[i])
}

/// Building the names in order may end in `e`: every name before some
/// position was built, and the one there failed with `e`.
pub open spec fn first_fails<C, F: Fn(&serde_yaml::Value) -> Result<C, anyhow::Error>>(
    fs: Map<Seq<char>, F>, raws: Map<Seq<char>, serde_yaml::Value>, k: ComponentKind, names: Seq<Seq<char>>, e: IngestionError,
) -> bool {
    exists|i: int| 0 <= i < names.len() && all_buildable::<C, F>(fs, raws, k, names.take(i))
        && #[trigger] fails::<C, F>(fs, raws, k, names[i], e)
}

/// `g` is a group that building an exporter entry may give: the entry's
/// shape, each member built from its own name.
pub open spec fn group_builds<C, F: Fn(&serde_yaml::Value) -> Result<C, anyhow::Error>>(
    fs: Map<Seq<char>, F>, raws: Map<Seq<char>, serde_yaml::Value>, entry: ExporterEntry, g: ExporterGroup<C>,
) -> bool {
    match entry {
        ExporterEntry::Flat(n) => g matches ExporterGroup::Flat(c) && builds(fs, raws, ComponentKind::Exporter, n@, c),
        ExporterEntry::OneOf(ns) => g matches ExporterGroup::OneOf(cs)
            && all_build(fs, raws, ComponentKind::Exporter, names_of(ns@), cs@),
    }
}

/// `gs` are groups that building the entries in order may give, one each.
pub open spec fn groups_build<C, F: Fn(&serde_yaml::Value) -> Result<C, anyhow::Error>>(
    fs: Map<Seq<char>, F>, raws: Map<Seq<char>, serde_yaml::Value>, es: Seq<ExporterEntry>, gs: Seq<ExporterGroup<C>>,
) -> bool {
    &&& gs.len() == es.len()
    &&& forall|i: int| 0 <= i < es.len() ==> #[trigger] group_builds(fs, raws, es[i], gs[i])
}

/// Every name of every entry may be built.
pub open spec fn groups_buildable<C, F: Fn(&serde_yaml::Value) -> Result<C, anyhow::Error>>(
    fs: Map<Seq<char>, F>, raws: Map<Seq<char>, serde_yaml::Value>, es: Seq<ExporterEntry>,
) -> bool {
    forall|i: int| 0 <= i < es.len() ==> #[trigger] all_buildable::<C, F>(fs, raws, ComponentKind::Exporter, entry_names(es[i]))
}

/// Building the entries in order may end in `e`: the entries before some
/// position were built, and the one there failed with `e`.
pub open spec fn groups_first_fail<C, F: Fn(&serde_yaml::Value) -> Result<C, anyhow::Error>>(
    fs: Map<Seq<char>, F>, raws: Map<Seq<char>, serde_yaml::Value>, es: Seq<ExporterEntry>, e: IngestionError,
) -> bool {
    exists|i: int| 0 <= i < es.len() && groups_buildable::<C, F>(fs, raws, es.take(i))
        && #[trigger] first_fails::<C, F>(fs, raws, ComponentKind::Exporter, entry_names(es[i]), e)
}

impl<R, P, E> ComponentRegistry<R, P, E> {
    /// `p` is a pipeline that building `pc` under `name` may give: its
    /// receiver, processors and exporter groups each built by the factory
    /// registered under its name from its own configuration entry.
    pub open spec fn pipeline_builds<RC, PC, EC>(&self, config: Config, name: Seq<char>, pc: PipelineConfig, p: Pipeline<RC, PC, EC>) -> bool
        where
            R: Fn(&serde_yaml::Value) -> Result<RC, anyhow::Error>,
            P: Fn(&serde_yaml::Value) -> Result<PC, anyhow::Error>,
            E: Fn(&serde_yaml::Value) -> Result<EC, anyhow::Error>,
    {
        &&& p.name@ == name
        &&& p.channel_capacity == DEFAULT_CHANNEL_CAPACITY
        &&& builds(self.receivers@, config.receivers@, ComponentKind::Receiver, pc.receiver@, p.receiver)
        &&& all_build(self.processors@, config.processors@, ComponentKind::Processor, names_of(pc.processors@), p.processors@)
        &&& groups_build(self.exporters@, config.exporters@, pc.exporters@, p.exporter_groups@)
    }

    /// Every component of `pc` may be built.
    pub open spec fn pipeline_buildable<RC, PC, EC>(&self, config: Config, pc: PipelineConfig) -> bool
        where
            R: Fn(&serde_yaml::Value) -> Result<RC, anyhow::Error>,
            P: Fn(&serde_yaml::Value) -> Result<PC, anyhow::Error>,
            E: Fn(&serde_yaml::Value) -> Result<EC, anyhow::Error>,
    {
        &&& buildable::<RC, R>(self.receivers@, config.receivers@, ComponentKind::Receiver, pc.receiver@)
        &&& all_buildable::<PC, P>(self.processors@, config.processors@, ComponentKind::Processor, names_of(pc.processors@))
        &&& groups_buildable::<EC, E>(self.exporters@, config.exporters@, pc.exporters@)
    }

    /// Building `pc` may end in `e`: the receiver failed; or it was built and
    /// the processors, in order, ended in `e`; or both were built and the
    /// exporter entries, in order, ended in `e`.
    pub open spec fn pipeline_fails<RC, PC, EC>(&self, config: Config, pc: PipelineConfig, e: IngestionError) -> bool
        where
            R: Fn(&serde_yaml::Value) -> Result<RC, anyhow::Error>,
            P: Fn(&serde_yaml::Value) -> Result<PC, anyhow::Error>,
            E: Fn(&serde_yaml::Value) -> Result<EC, anyhow::Error>,
    {
        ||| fails::<RC, R>(self.receivers@, config.receivers@, ComponentKind::Receiver, pc.receiver@, e)
        ||| buildable::<RC, R>(self.receivers@, config.receivers@, ComponentKind::Receiver, pc.receiver@)
            && first_fails::<PC, P>(self.processors@, config.processors@, ComponentKind::Processor, names_of(pc.processors@), e)
        ||| buildable::<RC, R>(self.receivers@, config.receivers@, ComponentKind::Receiver, pc.receiver@)
            && all_buildable::<PC, P>(self.processors@, config.processors@, ComponentKind::Processor, names_of(pc.processors@))
            && groups_first_fail::<EC, E>(self.exporters@, config.exporters@, pc.exporters@, e)
    }

    /// Every factory of the registry may be called on any configuration value.
    pub open spec fn callable<RC, PC, EC>(&self) -> bool
        where
            R: Fn(&serde_yaml::Value) -> Result<RC, anyhow::Error>,
            P: Fn(&serde_yaml::Value) -> Result<PC, anyhow::Error>,
            E: Fn(&serde_yaml::Value) -> Result<EC, anyhow::Error>,
    {
        &&& callable::<RC, R>(self.receivers@)
        &&& callable::<PC, P>(self.processors@)
        &&& callable::<EC, E>(self.exporters@)
    }
}

/// Components that were built may be built.
proof fn lemma_all_build_buildable<C, F: Fn(&serde_yaml::Value) -> Result<C, anyhow::Error>>(
    fs: Map<Seq<char>, F>, raws: Map<Seq<char>, serde_yaml::Value>, k: ComponentKind, names: Seq<Seq<char>>, cs: Seq<C>,
)
    requires
        all_build(fs, raws, k, names, cs),
    ensures
        all_buildable::<C, F>(fs, raws, k, names),
{
    assert forall|i: int| 0 <= i < names.len() implies #[trigger] buildable::<C, F>(fs, raws, k, names[i]) by {
        assert(builds(fs, raws, k, names[i], cs[i]));
    }
}

/// Groups that were built may be built.
proof fn lemma_groups_build_buildable<C, F: Fn(&serde_yaml::Value) -> Result<C, anyhow::Error>>(
    fs: Map<Seq<char>, F>, raws: Map<Seq<char>, serde_yaml::Value>, es: Seq<ExporterEntry>, gs: Seq<ExporterGroup<C>>,
)
    requires
        groups_build(fs, raws, es, gs),
    ensures
        groups_buildable::<C, F>(fs, raws, es),
{
    assert forall|i: int| 0 <= i < es.len() implies #[trigger] all_buildable::<C, F>(fs, raws, ComponentKind::Exporter, entry_names(es[i])) by {
        assert(group_builds(fs, raws, es[i], gs[i]));
        match es[i] {
            ExporterEntry::Flat(n) => {
                let c = gs[i]->Flat_0;
                assert(builds(fs, raws, ComponentKind::Exporter, n@, c));
                assert(entry_names(es[i])[0] == n@);
            },
            ExporterEntry::OneOf(ns) => {
                lemma_all_build_buildable(fs, raws, ComponentKind::Exporter, names_of(ns@), gs[i]->OneOf_0@);
            },
        }
    }
}

// ---------------------------------------------------------------------------
// Building
// ---------------------------------------------------------------------------

/// Builds a component, or refuses with the first missing link; a factory's
/// own failure is passed on.
fn build_component<C, F>(
    factories: &NamedTable<F>,
    raws: &NamedTable<serde_yaml::Value>,
    kind: ComponentKind,
    name: &String,
) -> (r: Result<C, IngestionError>)
    where
        F: Fn(&serde_yaml::Value) -> Result<C, anyhow::Error>,
    requires
        callable(factories@),
    ensures
        component_result(factories@, raws@, kind, name@, r),
{
    let factory = match factories.get(name) {
        Some(f) => f,
        None => {
            let mut m = String::from_str("no ");
            m.append(kind_text(kind));
            m.append(" registered for '");
            m.append(name.as_str());
            m.append("'");
            assert(m@ =~= unregistered_message(kind, name@));
            return Err(IngestionError::Config(m));
        },
    };
    let raw = match raws.get(name) {
        Some(v) => v,
        None => {
            let mut m = String::from_str(kind_text(kind));
            m.append(" '");
            m.append(name.as_str());
            m.append("' missing from config");
            assert(m@ =~= unconfigured_message(kind, name@));
            return Err(IngestionError::Config(m));
        },
    };
    match factory(raw) {
        Ok(c) => Ok(c),
        Err(e) => Err(IngestionError::Component(e)),
    }
}

fn kind_text(k: ComponentKind) -> (r: &'static str)
    ensures
        r@ == kind_word(k),
{
    match k {
        ComponentKind::Receiver => "receiver",
        ComponentKind::Processor => "processor",
        ComponentKind::Exporter => "exporter",
    }
}

/// Builds the components named, in order; the first failure ends the build.
fn build_list<C, F>(
    factories: &NamedTable<F>,
    raws: &NamedTable<serde_yaml::Value>,
    kind: ComponentKind,
    names: &Vec<String>,
) -> (r: Result<Vec<C>, IngestionError>)
    where
        F: Fn(&serde_yaml::Value) -> Result<C, anyhow::Error>,
    requires
        callable(factories@),
    ensures
        match r {
            Ok(cs) => all_build(factories@, raws@, kind, names_of(names@), cs@),
            Err(e) => first_fails::<C, F>(factories@, raws@, kind, names_of(names@), e),
        },
{
    let ghost all = names_of(names@);
    let mut out: Vec<C> = Vec::new();
    let mut i: usize = 0;
    while i < names.len()
        invariant
            0 <= i <= names.len(),
            all == names_of(names@),
            callable(factories@),
            all_build(factories@, raws@, kind, all.take(i as int), out@),
        decreases names.len() - i,
    {
        assert(all[i as int] == names[i as int]@);
        let built = build_component(factories, raws, kind, &names[i]);
        match built {
            Ok(c) => {
                let ghost before = out@;
                out.push(c);
                assert(all.take(i + 1) =~= all.take(i as int).push(all[i as int]));
                assert forall|j: int| 0 <= j < i + 1 implies #[trigger] builds(factories@, raws@, kind, all.take(i + 1)[j], out@[j]) by {
                    if j < i {
                        assert(builds(factories@, raws@, kind, all.take(i as int)[j], before[j]));
                    }
                }
            },
            Err(e) => {
                proof {
                    lemma_all_build_buildable(factories@, raws@, kind, all.take(i as int), out@);
                    assert(fails::<C, F>(factories@, raws@, kind, all[i as int], e));
                }
                return Err(e);
            },
        }
        i = i + 1;
    }
    assert(all.take(names.len() as int) =~= all);
    Ok(out)
}

impl<R, P, E> ComponentRegistry<R, P, E> {
    /// A registry with no factories.
    pub fn new() -> (r: Self)
        ensures
            r.receivers@.is_empty(),
            r.processors@.is_empty(),
            r.exporters@.is_empty(),
    {
        ComponentRegistry { receivers: NamedTable::new(), processors: NamedTable::new(), exporters: NamedTable::new() }
    }

    /// Registers a receiver factory under `name`, which pipelines name in
    /// their configuration. A later registration under the same name replaces it.
    pub fn register_receiver(&mut self, name: String, factory: R)
        ensures
            final(self).receivers@ == old(self).receivers@.insert(name@, factory),
            final(self).processors@ == old(self).processors@,
            final(self).exporters@ == old(self).exporters@,
    {
        self.receivers.insert(name, factory);
    }

    /// Registers a processor factory under `name`.
    pub fn register_processor(&mut self, name: String, factory: P)
        ensures
            final(self).processors@ == old(self).processors@.insert(name@, factory),
            final(self).receivers@ == old(self).receivers@,
            final(self).exporters@ == old(self).exporters@,
    {
        self.processors.insert(name, factory);
    }

    /// Registers an exporter factory under `name`.
    pub fn register_exporter(&mut self, name: String, factory: E)
        ensures
            final(self).exporters@ == old(self).exporters@.insert(name@, factory),
            final(self).receivers@ == old(self).receivers@,
            final(self).processors@ == old(self).processors@,
    {
        self.exporters.insert(name, factory);
    }
}

impl<R, P, E> ComponentRegistry<R, P, E> {
    /// Builds the exporter group of one configuration entry.
    fn build_exporter_group<EC>(&self, entry: &ExporterEntry, config: &Config) -> (r: Result<ExporterGroup<EC>, IngestionError>)
        where
            E: Fn(&serde_yaml::Value) -> Result<EC, anyhow::Error>,
        requires
            callable(self.exporters@),
        ensures
            match r {
                Ok(g) => group_builds(self.exporters@, config.exporters@, *entry, g),
                Err(e) => first_fails::<EC, E>(self.exporters@, config.exporters@, ComponentKind::Exporter, entry_names(*entry), e),
            },
    {
        match entry {
            ExporterEntry::Flat(name) => {
                let ghost ns = entry_names(*entry);
                match build_component(&self.exporters, &config.exporters, ComponentKind::Exporter, name) {
                    Ok(e) => Ok(ExporterGroup::Flat(e)),
                    Err(e) => {
                        assert(ns[0] == name@);
                        assert(all_buildable::<EC, E>(self.exporters@, config.exporters@, ComponentKind::Exporter, ns.take(0)));
                        assert(fails::<EC, E>(self.exporters@, config.exporters@, ComponentKind::Exporter, ns[0], e));
                        Err(e)
                    },
                }
            },
            ExporterEntry::OneOf(names) => match build_list(&self.exporters, &config.exporters, ComponentKind::Exporter, names) {
                Ok(v) => Ok(ExporterGroup::OneOf(v)),
                Err(e) => Err(e),
            },
        }
    }

    /// Builds the exporter groups of a pipeline, in order.
    fn build_exporter_groups<EC>(&self, entries: &Vec<ExporterEntry>, config: &Config) -> (r: Result<Vec<ExporterGroup<EC>>, IngestionError>)
        where
            E: Fn(&serde_yaml::Value) -> Result<EC, anyhow::Error>,
        requires
            callable(self.exporters@),
        ensures
            match r {
                Ok(gs) => groups_build(self.exporters@, config.exporters@, entries@, gs@),
                Err(e) => groups_first_fail::<EC, E>(self.exporters@, config.exporters@, entries@, e),
            },
    {
        let ghost all = entries@;
        let mut out: Vec<ExporterGroup<EC>> = Vec::new();
        let mut i: usize = 0;
        while i < entries.len()
            invariant
                0 <= i <= entries.len(),
                all == entries@,
                callable(self.exporters@),
                groups_build(self.exporters@, config.exporters@, all.take(i as int), out@),
            decreases entries.len() - i,
        {
            match self.build_exporter_group(&entries[i], config) {
                Ok(g) => {
                    let ghost before = out@;
                    out.push(g);
                    assert(all.take(i + 1) =~= all.take(i as int).push(all[i as int]));
                    assert forall|j: int| 0 <= j < i + 1 implies #[trigger] group_builds(self.exporters@, config.exporters@, all.take(i + 1)[j], out@[j]) by {
                        if j < i {
                            assert(group_builds(self.exporters@, config.exporters@, all.take(i as int)[j], before[j]));
                        }
                    }
                },
                Err(e) => {
                    proof {
                        lemma_groups_build_buildable(self.exporters@, config.exporters@, all.take(i as int), out@);
                        assert(first_fails::<EC, E>(self.exporters@, config.exporters@, ComponentKind::Exporter, entry_names(all[i as int]), e));
                    }
                    return Err(e);
                },
            }
            i = i + 1;
        }
        assert(all.take(entries.len() as int) =~= all);
        Ok(out)
    }

    /// Builds one pipeline: its receiver, then its processors in order, then
    /// its exporter groups in order; the first failure ends the build.
    pub fn build_pipeline<RC, PC, EC>(&self, name: &String, pipeline_cfg: &PipelineConfig, config: &Config)
        -> (r: Result<Pipeline<RC, PC, EC>, IngestionError>)
        where
            R: Fn(&serde_yaml::Value) -> Result<RC, anyhow::Error>,
            P: Fn(&serde_yaml::Value) -> Result<PC, anyhow::Error>,
            E: Fn(&serde_yaml::Value) -> Result<EC, anyhow::Error>,
        requires
            self.callable(),
        ensures
            match r {
                Ok(p) => self.pipeline_builds(*config, name@, *pipeline_cfg, p),
                Err(e) => self.pipeline_fails(*config, *pipeline_cfg, e),
            },
    {
        let receiver = match build_component(&self.receivers, &config.receivers, ComponentKind::Receiver, &pipeline_cfg.receiver) {
            Ok(r) => r,
            Err(e) => {
                return Err(e);
            },
        };
        assert(builds(self.receivers@, config.receivers@, ComponentKind::Receiver, pipeline_cfg.receiver@, receiver));
        let processors = match build_list(&self.processors, &config.processors, ComponentKind::Processor, &pipeline_cfg.processors) {
            Ok(v) => v,
            Err(e) => {
                return Err(e);
            },
        };
        proof {
            lemma_all_build_buildable(self.processors@, config.processors@, ComponentKind::Processor, names_of(pipeline_cfg.processors@), processors@);
        }
        let exporter_groups = match self.build_exporter_groups(&pipeline_cfg.exporters, config) {
            Ok(v) => v,
            Err(e) => {
                return Err(e);
            },
        };
        Ok(Pipeline {
            name: name.clone(),
            receiver,
            processors,
            exporter_groups,
            channel_capacity: DEFAULT_CHANNEL_CAPACITY,
        })
    }

    /// Builds every configured pipeline, in the configuration's order; the
    /// first failure ends the build. With no pipelines configured, nothing
    /// is built and nothing fails.
    pub fn build_all<RC, PC, EC>(&self, config: &Config) -> (r: Result<Vec<Pipeline<RC, PC, EC>>, IngestionError>)
        where
            R: Fn(&serde_yaml::Value) -> Result<RC, anyhow::Error>,
            P: Fn(&serde_yaml::Value) -> Result<PC, anyhow::Error>,
            E: Fn(&serde_yaml::Value) -> Result<EC, anyhow::Error>,
        requires
            self.callable(),
        ensures
            match r {
                Ok(ps) => {
                    &&& ps.len() == config.pipelines.names().len()
                    &&& forall|i: int| 0 <= i < ps.len() ==> #[trigger] self.pipeline_builds(
                        *config, config.pipelines.names()[i], config.pipelines@[config.pipelines.names()[i]], ps[i])
                },
                Err(e) => exists|i: int| 0 <= i < config.pipelines.names().len()
                    && (forall|j: int| 0 <= j < i ==> #[trigger] self.pipeline_buildable::<RC, PC, EC>(*config, config.pipelines@[config.pipelines.names()[j]]))
                    && #[trigger] self.pipeline_fails::<RC, PC, EC>(*config, config.pipelines@[config.pipelines.names()[i]], e),
            },
            config.pipelines.names().len() == 0 ==> (r matches Ok(ps) && ps.len() == 0),
    {
        let ghost all = config.pipelines.names();
        let mut out: Vec<Pipeline<RC, PC, EC>> = Vec::new();
        let mut i: usize = 0;
        let n = config.pipelines.len();
        while i < n
            invariant
                0 <= i <= n,
                n == all.len(),
                all == config.pipelines.names(),
                self.callable(),
                out.len() == i,
                forall|j: int| 0 <= j < i ==> #[trigger] self.pipeline_builds(*config, all[j], config.pipelines@[all[j]], out[j]),
            decreases n - i,
        {
            let (name, pipeline_cfg) = config.pipelines.entry(i);
            match self.build_pipeline(name, pipeline_cfg, config) {
                Ok(p) => out.push(p),
                Err(e) => {
                    proof {
                        assert forall|j: int| 0 <= j < i implies #[trigger] self.pipeline_buildable::<RC, PC, EC>(*config, config.pipelines@[all[j]]) by {
                            let pc = config.pipelines@[all[j]];
                            let p = out[j];
                            assert(self.pipeline_builds(*config, all[j], pc, p));
                            assert(builds(self.receivers@, config.receivers@, ComponentKind::Receiver, pc.receiver@, p.receiver));
                            lemma_all_build_buildable(self.processors@, config.processors@, ComponentKind::Processor, names_of(pc.processors@), p.processors@);
                            lemma_groups_build_buildable(self.exporters@, config.exporters@, pc.exporters@, p.exporter_groups@);
                        }
                    }
                    return Err(e);
                },
            }
            i = i + 1;
        }
        Ok(out)
    }
}

/// After a factory is registered under `name`, building a component of that
/// name gives what that factory returns for the name's configuration entry,
/// whatever was registered under the name before (the last registration
/// wins); building any other name is unchanged.
pub proof fn lemma_last_registration_wins<C, F: Fn(&serde_yaml::Value) -> Result<C, anyhow::Error>>(
    before: Map<Seq<char>, F>,
    f: F,
    raws: Map<Seq<char>, serde_yaml::Value>,
    k: ComponentKind,
    name: Seq<char>,
)
    ensures
        forall|r: Result<C, IngestionError>| #[trigger] component_result(before.insert(name, f), raws, k, name, r) == if raws.contains_key(name) {
            match r {
                Ok(c) => call_ensures(f, (&raws[name],), Ok(c)),
                Err(IngestionError::Component(e)) => call_ensures(f, (&raws[name],), Err(e)),
                Err(_) => false,
            }
        } else {
            is_config_error(r, unconfigured_message(k, name))
        },
        forall|n: Seq<char>, r: Result<C, IngestionError>| n != name
            ==> #[trigger] component_result(before.insert(name, f), raws, k, n, r) == component_result(before, raws, k, n, r),
{
    assert forall|n: Seq<char>, r: Result<C, IngestionError>| n != name
        implies #[trigger] component_result(before.insert(name, f), raws, k, n, r) == component_result(before, raws, k, n, r) by {
        assert(before.insert(name, f).contains_key(n) == before.contains_key(n));
        if before.contains_key(n) {
            assert(before.insert(name, f)[n] == before[n]);
        }
    }
}

impl<R, P, E> Default for ComponentRegistry<R, P, E> {
    fn default() -> (r: Self)
        ensures
            r.receivers@.is_empty(),
            r.processors@.is_empty(),
            r.exporters@.is_empty(),
    {
        Self::new()
    }
}

} // verus!
