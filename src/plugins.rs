//! Plugins: each has a unique name and answers on one or more channels, which
//! are registered when the plugin is added.
use vstd::prelude::*;
use crate::channel::{
    Channel, ChannelModel, ChannelRegistry, Inbound, PlatformMessage, has_name,
    names_unique, routed, is_dropped, DropReason, channel_views,
};
use crate::codec::CodecTypes;
use crate::text::str_eq;
use crate::textinput::TextInputPlugin;

verus! {

/// A plugin: a unique name and the channels it answers on.
pub trait Plugin {
    spec fn name_view(&self) -> Seq<char>;

    spec fn channels_view(&self) -> Seq<ChannelModel>;

    fn plugin_name(&self) -> (r: String)
        ensures
            r@ == self.name_view(),
    ;

    /// The plugin's channels, fresh, for the registrar to register.
    fn init_channels(&self) -> (r: Vec<Channel>)
        ensures
            channel_views(r@) == self.channels_view(),
    ;
}

/// Whether one of `names` is `name`.
pub open spec fn seq_has(names: Seq<Seq<char>>, name: Seq<char>) -> bool {
    exists|i: int| 0 <= i < names.len() && names[i] == name
}

proof fn lemma_names_clash(s: Seq<ChannelModel>, i: int, j: int)
    requires
        0 <= i < j < s.len(),
        s[i].name == s[j].name,
    ensures
        !names_unique(s),
{
    if names_unique(s) {
        assert(s[i].name != s[j].name);
    }
}

/// The plugins by name, and the channels they registered.
#[derive(Debug)]
pub struct PluginRegistrar {
    plugins: Vec<String>,
    instances: Vec<PluginInstance>,
    channel_registry: ChannelRegistry,
}

/// No two of `names` are equal.
pub open spec fn all_distinct(names: Seq<Seq<char>>) -> bool {
    forall|i: int, j: int| 0 <= i < j < names.len() ==> names[i] != names[j]
}

/// The kinds of plugin a registrar holds.
#[derive(Debug)]
pub enum PluginInstance {
    TextInput(TextInputPlugin),
    Declared(DeclaredPlugin),
}

impl Plugin for PluginInstance {
    open spec fn name_view(&self) -> Seq<char> {
        match self {
            PluginInstance::TextInput(p) => p.name_view(),
            PluginInstance::Declared(p) => p.name_view(),
        }
    }

    open spec fn channels_view(&self) -> Seq<ChannelModel> {
        match self {
            PluginInstance::TextInput(p) => p.channels_view(),
            PluginInstance::Declared(p) => p.channels_view(),
        }
    }

    fn plugin_name(&self) -> (r: String) {
        match self {
            PluginInstance::TextInput(p) => p.plugin_name(),
            PluginInstance::Declared(p) => p.plugin_name(),
        }
    }

    fn init_channels(&self) -> (r: Vec<Channel>) {
        match self {
            PluginInstance::TextInput(p) => p.init_channels(),
            PluginInstance::Declared(p) => p.init_channels(),
        }
    }
}

impl PluginRegistrar {
    /// The names of the plugins added, in order.
    pub closed spec fn plugin_names(&self) -> Seq<Seq<char>> {
        self.plugins@.map_values(|s: String| s@)
    }

    /// The channels registered, in order.
    pub closed spec fn channels(&self) -> Seq<ChannelModel> {
        self.channel_registry@
    }

    /// The plugins added, in order.
    pub closed spec fn instances(&self) -> Seq<PluginInstance> {
        self.instances@
    }

    /// Holds whenever a registrar is in use. It implies `names_unique` of the
    /// channels and `all_distinct` of the plugin names.
    pub closed spec fn wf(&self) -> bool {
        &&& self.channel_registry.wf()
        &&& self.instances@.len() == self.plugins@.len()
        &&& forall|i: int, j: int|
            0 <= i < j < self.plugins@.len() ==> self.plugins@[i]@ != self.plugins@[j]@
    }

    /// No two channels and no two plugins share a name.
    pub proof fn lemma_names_unique(&self)
        requires
            self.wf(),
        ensures
            names_unique(self.channels()),
            all_distinct(self.plugin_names()),
            self.instances().len() == self.plugin_names().len(),
    {
    }

    pub fn new() -> (r: PluginRegistrar)
        ensures
            r.wf(),
            names_unique(r.channels()),
            all_distinct(r.plugin_names()),
            r.plugin_names().len() == 0,
            r.instances().len() == 0,
            r.channels().len() == 0,
    {
        let r = PluginRegistrar {
            plugins: Vec::new(),
            instances: Vec::new(),
            channel_registry: ChannelRegistry::new(),
        };
        assert(r.plugin_names() =~= Seq::<Seq<char>>::empty());
        r
    }

    /// The position of the plugin called `name`, if one was added.
    pub fn find_plugin(&self, name: &str) -> (r: Option<usize>)
        ensures
            r is None <==> !seq_has(self.plugin_names(), name@),
            r matches Some(i) ==> i < self.plugin_names().len() && self.plugin_names()[i as int]
                == name@,
    {
        let mut i: usize = 0;
        while i < self.plugins.len()
            invariant
                i <= self.plugins@.len(),
                forall|j: int| 0 <= j < i ==> self.plugins@[j]@ != name@,
            decreases self.plugins@.len() - i,
        {
            if str_eq(self.plugins[i].as_str(), name) {
                assert(self.plugin_names()[i as int] == name@);
                return Some(i);
            }
            i = i + 1;
        }
        assert(!seq_has(self.plugin_names(), name@)) by {
            if seq_has(self.plugin_names(), name@) {
                let j = choose|j: int|
                    0 <= j < self.plugin_names().len() && self.plugin_names()[j] == name@;
                assert(self.plugins@[j]@ == name@);
            }
        }
        None
    }

    /// Whether a plugin called `name` was added.
    pub fn has_plugin(&self, name: &str) -> (r: bool)
        ensures
            r == seq_has(self.plugin_names(), name@),
    {
        self.find_plugin(name).is_some()
    }

    /// The plugin added under `name`, if any.
    pub fn plugin(&self, name: &str) -> (r: Option<&PluginInstance>)
        requires
            self.wf(),
        ensures
            r is None <==> !seq_has(self.plugin_names(), name@),
            r matches Some(p) ==> exists|i: int|
                0 <= i < self.instances().len() && self.plugin_names()[i] == name@ && *p
                    == self.instances()[i],
    {
        match self.find_plugin(name) {
            None => None,
            Some(i) => Some(&self.instances[i]),
        }
    }

    /// The text input plugin, if it was added.
    pub fn text_input(&self) -> (r: Option<&TextInputPlugin>)
        requires
            self.wf(),
        ensures
            r matches Some(t) ==> exists|i: int|
                0 <= i < self.instances().len() && self.instances()[i]
                    == PluginInstance::TextInput(*t),
            r is None ==> forall|i: int|
                0 <= i < self.instances().len() ==> !(self.instances()[i] is TextInput),
    {
        let mut i: usize = 0;
        while i < self.instances.len()
            invariant
                i <= self.instances@.len(),
                forall|j: int| 0 <= j < i ==> !(self.instances@[j] is TextInput),
            decreases self.instances@.len() - i,
        {
            if let PluginInstance::TextInput(t) = &self.instances[i] {
                return Some(t);
            }
            i = i + 1;
        }
        None
    }

    /// The plugin at position `i`, to change in place; names and channels
    /// stay as they are.
    pub fn plugin_at_mut(&mut self, i: usize) -> (r: &mut PluginInstance)
        requires
            old(self).wf(),
            i < old(self).instances().len(),
        ensures
            *r == old(self).instances()[i as int],
            final(self).wf(),
            final(self).instances() == old(self).instances().update(i as int, *final(r)),
            final(self).plugin_names() == old(self).plugin_names(),
            final(self).channels() == old(self).channels(),
    {
        &mut self.instances[i]
    }

    /// Whether `plugin` can be added: its name is free, and each of its
    /// channel names is neither registered nor repeated.
    pub fn can_add_plugin<P: Plugin>(&self, plugin: &P) -> (r: bool)
        requires
            self.wf(),
        ensures
            r == (!seq_has(self.plugin_names(), plugin.name_view()) && names_unique(
                self.channels() + plugin.channels_view(),
            )),
    {
        let name = plugin.plugin_name();
        if self.find_plugin(name.as_str()).is_some() {
            return false;
        }
        let channels = plugin.init_channels();
        let ghost old_reg = self.channel_registry@;
        let ghost new_cs = channel_views(channels@);
        // Every new name is neither registered nor repeated.
        let mut i: usize = 0;
        while i < channels.len()
            invariant
                i <= channels@.len(),
                new_cs == channel_views(channels@),
                old_reg == self.channel_registry@,
                self.wf(),
                old_reg == self.channels(),
                new_cs == plugin.channels_view(),
                names_unique(old_reg + new_cs.take(i as int)),
            decreases channels@.len() - i,
        {
            let n = channels[i].name();
            if self.channel_registry.find(n.as_str()).is_some() {
                proof {
                    let k = choose|k: int| 0 <= k < old_reg.len() && old_reg[k].name == new_cs[i as int].name;
                    let all = old_reg + new_cs;
                    assert(all[k].name == all[old_reg.len() + i].name);
                    lemma_names_clash(all, k, old_reg.len() + i);
                }
                return false;
            }
            let mut j: usize = 0;
            while j < i
                invariant
                    j <= i < channels@.len(),
                    new_cs == channel_views(channels@),
                    n@ == new_cs[i as int].name,
                    forall|k: int| 0 <= k < j ==> new_cs[k].name != n@,
                    self.wf(),
                    old_reg == self.channels(),
                    new_cs == plugin.channels_view(),
                decreases i - j,
            {
                if str_eq(channels[j].name().as_str(), n.as_str()) {
                    proof {
                        let all = old_reg + new_cs;
                        assert(all[old_reg.len() + j].name == all[old_reg.len() + i].name);
                        lemma_names_clash(all, old_reg.len() + j, old_reg.len() + i);
                    }
                    return false;
                }
                j = j + 1;
            }
            proof {
                let a = old_reg + new_cs.take(i as int);
                let b = old_reg + new_cs.take(i + 1);
                assert forall|x: int, y: int| 0 <= x < y < b.len() implies b[x].name != b[y].name by {
                    if y < a.len() {
                        assert(b[x] == a[x] && b[y] == a[y]);
                    } else if x < old_reg.len() {
                        assert(b[y] == new_cs[i as int]);
                        assert(!has_name(old_reg, n@));
                    } else {
                        assert(b[y] == new_cs[i as int]);
                        assert(b[x] == new_cs[x - old_reg.len()]);
                    }
                }
            }
            i = i + 1;
        }
        assert(new_cs.take(new_cs.len() as int) =~= new_cs);
        true
    }

    /// Adds `plugin` and registers its channels, before any message can reach
    /// them. Its name and channel names must be free (see `can_add_plugin`):
    /// a clash is a programming error.
    pub fn add_plugin(&mut self, plugin: PluginInstance)
        requires
            old(self).wf(),
            !seq_has(old(self).plugin_names(), plugin.name_view()),
            names_unique(old(self).channels() + plugin.channels_view()),
        ensures
            final(self).wf(),
            names_unique(final(self).channels()),
            all_distinct(final(self).plugin_names()),
            final(self).plugin_names() == old(self).plugin_names().push(plugin.name_view()),
            final(self).channels() == old(self).channels() + plugin.channels_view(),
            final(self).instances() == old(self).instances().push(plugin),
    {
        let name = plugin.plugin_name();
        let mut channels = plugin.init_channels();
        let ghost old_reg = self.channel_registry@;
        let ghost new_cs = channel_views(channels@);
        // Register them all; none can clash now.
        let total = channels.len();
        let mut done: usize = 0;
        while channels.len() > 0
            invariant
                done + channels@.len() == total,
                total == new_cs.len(),
                channel_views(channels@) == new_cs.skip(done as int),
                self.wf(),
                self.plugin_names() == old(self).plugin_names(),
                self.instances() == old(self).instances(),
                old_reg == old(self).channels(),
                new_cs == plugin.channels_view(),
                !seq_has(old(self).plugin_names(), plugin.name_view()),
                name@ == plugin.name_view(),
                self.channel_registry@ == old_reg + new_cs.take(done as int),
                names_unique(old_reg + new_cs),
            decreases channels@.len(),
        {
            let ghost before = self.channel_registry@;
            let ghost rest = channels@;
            let c = channels.remove(0);
            proof {
                assert(rest.map_values(|c: Channel| c@)[0] == rest[0]@);
                assert(c@ == new_cs[done as int]);
                assert forall|k: int| 0 <= k < channels@.len() implies #[trigger] channel_views(channels@)[k] == new_cs.skip(done + 1)[k] by {
                    assert(channels@[k] == rest[k + 1]);
                    assert(rest.map_values(|c: Channel| c@)[k + 1] == rest[k + 1]@);
                }
                let all = old_reg + new_cs;
                if has_name(before, c@.name) {
                    let k = choose|k: int| 0 <= k < before.len() && before[k].name == c@.name;
                    assert(before[k] == all[k]);
                    assert(all[old_reg.len() + done] == c@);
                }
                assert(channel_views(channels@) =~= new_cs.skip(done + 1));
            }
            self.channel_registry.register(c);
            proof {
                assert(self.channel_registry@ =~= old_reg + new_cs.take(done + 1));
            }
            done = done + 1;
        }
        assert(new_cs.take(done as int) =~= new_cs);
        let ghost before_plugins = self.plugins@;
        self.plugins.push(name);
        self.instances.push(plugin);
        assert(self.plugin_names() =~= old(self).plugin_names().push(plugin.name_view()));
        assert forall|x: int, y: int| 0 <= x < y < self.plugins@.len() implies self.plugins@[x]@
            != self.plugins@[y]@ by {
            if y == self.plugins@.len() - 1 {
                assert(old(self).plugin_names()[x] == self.plugins@[x]@);
            } else {
                assert(before_plugins[x] == self.plugins@[x] && before_plugins[y] == self.plugins@[y]);
            }
        }
    }


    /// Attaches or detaches the handler of the channel called `name`.
    pub fn set_handler(&mut self, name: &str, attached: bool) -> (r: bool)
        requires
            old(self).wf(),
        ensures
            final(self).wf(),
            names_unique(final(self).channels()),
            all_distinct(final(self).plugin_names()),
            final(self).instances() == old(self).instances(),
            final(self).plugin_names() == old(self).plugin_names(),
            r == has_name(old(self).channels(), name@),
            r ==> exists|i: int|
                0 <= i < old(self).channels().len() && old(self).channels()[i].name == name@
                    && final(self).channels() == old(self).channels().update(
                    i,
                    ChannelModel { handler_attached: attached, ..old(self).channels()[i] },
                ),
            !r ==> final(self).channels() == old(self).channels(),
    {
        let ghost before = self.channel_registry@;
        let r = self.channel_registry.set_handler(name, attached);
        proof {
            if r {
                let i = choose|i: int|
                    0 <= i < before.len() && before[i].name == name@ && self.channel_registry@
                        == before.update(i, ChannelModel { handler_attached: attached, ..before[i] });
                assert(self.channels() == old(self).channels().update(
                    i,
                    ChannelModel { handler_attached: attached, ..old(self).channels()[i] },
                ));
            }
        }
        r
    }

    /// Routes an inbound message through the registered channels.
    pub fn handle(&self, message: PlatformMessage) -> (r: Inbound)
        requires
            self.wf(),
        ensures
            !has_name(self.channels(), message@.channel) ==> is_dropped(
                r,
                DropReason::UnknownChannel,
                message@.response_handle,
            ),
            forall|i: int|
                0 <= i < self.channels().len() && self.channels()[i].name == message@.channel
                    ==> routed(#[trigger] self.channels()[i], message@, r),
    {
        self.channel_registry.handle(message)
    }
}

/// A plugin given by its name and the channels it answers on.
#[derive(Debug)]
pub struct DeclaredPlugin {
    name: String,
    channels: Vec<(String, CodecTypes)>,
}

impl DeclaredPlugin {
    /// A plugin called `name`, with no channel yet.
    pub fn new(name: String) -> (r: DeclaredPlugin)
        ensures
            r.name_view() == name@,
            r.channels_view().len() == 0,
    {
        let r = DeclaredPlugin { name, channels: Vec::new() };
        assert(r.channels_view() =~= Seq::<ChannelModel>::empty());
        r
    }

    /// The same plugin, answering also on `channel` with `codec`.
    pub fn with_channel(self, channel: String, codec: CodecTypes) -> (r: DeclaredPlugin)
        ensures
            r.name_view() == self.name_view(),
            r.channels_view() == self.channels_view().push(
                ChannelModel { name: channel@, codec, handler_attached: false },
            ),
    {
        let mut r = self;
        let ghost before = r.channels_view();
        r.channels.push((channel, codec));
        assert(r.channels_view() =~= before.push(
            ChannelModel { name: channel@, codec, handler_attached: false },
        ));
        r
    }
}

impl Plugin for DeclaredPlugin {
    closed spec fn name_view(&self) -> Seq<char> {
        self.name@
    }

    closed spec fn channels_view(&self) -> Seq<ChannelModel> {
        Seq::new(
            self.channels@.len(),
            |i: int|
                ChannelModel {
                    name: self.channels@[i].0@,
                    codec: self.channels@[i].1,
                    handler_attached: false,
                },
        )
    }

    fn plugin_name(&self) -> (r: String) {
        self.name.clone()
    }

    fn init_channels(&self) -> (r: Vec<Channel>) {
        let mut out: Vec<Channel> = Vec::new();
        let mut i: usize = 0;
        while i < self.channels.len()
            invariant
                i <= self.channels@.len(),
                out@.len() == i,
                channel_views(out@) == self.channels_view().take(i as int),
            decreases self.channels@.len() - i,
        {
            let (n, codec) = &self.channels[i];
            let c = Channel::new(n.clone(), *codec);
            let ghost before = out@;
            out.push(c);
            proof {
                let cv = self.channels_view();
                assert(out@ == before.push(c));
                assert(c@ == cv[i as int]);
                assert forall|k: int| 0 <= k < i + 1 implies #[trigger] channel_views(out@)[k]
                    == cv.take(i + 1)[k] by {
                    assert(channel_views(out@)[k] == out@[k]@);
                    if k < i {
                        assert(out@[k] == before[k]);
                        assert(channel_views(before)[k] == before[k]@);
                        assert(channel_views(before)[k] == cv.take(i as int)[k]);
                    }
                }
                assert(channel_views(out@) =~= cv.take(i + 1));
            }
            i = i + 1;
        }
        assert(self.channels_view().take(i as int) =~= self.channels_view());
        out
    }
}

} // verus!
