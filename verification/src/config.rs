use vstd::prelude::*;

verus! {

/// The sliders a touch bar layout can hold.
#[derive(Debug, Clone, Copy, PartialEq, Eq, Structural)]
pub enum SliderType {
    Volume,
    Brightness,
    KeyboardBrightness,
}

/// The label shown for each slider kind.
pub open spec fn slider_display_name(t: SliderType) -> Seq<char> {
    match t {
        SliderType::Volume => "Volume"@,
        SliderType::Brightness => "Brightness"@,
        SliderType::KeyboardBrightness => "Kbd Brightness"@,
    }
}

impl SliderType {
    /// The human-readable name of the slider.
    pub fn display_name(self) -> (name: &'static str)
        ensures
            name@ == slider_display_name(self),
    {
        match self {
            SliderType::Volume => "Volume",
            SliderType::Brightness => "Brightness",
            SliderType::KeyboardBrightness => "Kbd Brightness",
        }
    }
}

} // verus!

verus! {

/// A padding setting: a width in pixels, or the global default.
#[derive(Debug, Clone, Copy, PartialEq, Eq, Structural)]
pub enum PaddingSpec {
    Value(u16),
    Default,
}

/// Why a padding setting was refused.
#[derive(Debug, Clone, PartialEq, Eq)]
pub enum PaddingError {
    /// A string other than "default" (the string is kept).
    InvalidString(String),
}

/// A padding given as an unsigned integer keeps its low 16 bits.
pub fn padding_from_u64(v: u64) -> (p: PaddingSpec)
    ensures
        p == PaddingSpec::Value((v % 0x1_0000) as u16),
{
    PaddingSpec::Value((v % 0x1_0000) as u16)
}

/// A padding given as a signed integer keeps its low 16 bits (two's complement).
pub fn padding_from_i64(v: i64) -> (p: PaddingSpec)
    ensures
        p == PaddingSpec::Value(((v as int) % 0x1_0000) as u16),
{
    let r: i64 = v % 0x1_0000;
    let r2: i64 = if r < 0 { r + 0x1_0000 } else { r };
    PaddingSpec::Value(r2 as u16)
}

/// A padding given as a string: "default" in any ASCII case, else an error.
pub fn padding_from_str(v: &str) -> (r: Result<PaddingSpec, PaddingError>)
    ensures
        crate::text::eq_ignore_ascii_case(v@, "default"@) ==> r == Ok::<PaddingSpec, PaddingError>(PaddingSpec::Default),
        !crate::text::eq_ignore_ascii_case(v@, "default"@) ==> (r matches Err(PaddingError::InvalidString(s)) && s@ == v@),
{
    if crate::text::str_eq_ignore_ascii_case(v, "default") {
        Ok(PaddingSpec::Default)
    } else {
        Err(PaddingError::InvalidString(v.to_owned()))
    }
}

/// The padding that a setting stands for, given the global default padding.
pub open spec fn spec_resolve_padding(p: Option<PaddingSpec>, default_padding: Option<u16>) -> Option<u16> {
    match p {
        None => None,
        Some(PaddingSpec::Value(v)) => Some(v),
        Some(PaddingSpec::Default) => default_padding,
    }
}

/// Resolves a padding setting against the global default padding.
pub fn resolve_padding(p: Option<PaddingSpec>, default_padding: Option<u16>) -> (r: Option<u16>)
    ensures
        r == spec_resolve_padding(p, default_padding),
{
    match p {
        None => None,
        Some(PaddingSpec::Value(v)) => Some(v),
        Some(PaddingSpec::Default) => default_padding,
    }
}

/// Left and right padding of a widget: each side's own setting, else the
/// shared `padding` setting, each resolved against the global default.
pub fn resolve_side_paddings(
    padding: Option<PaddingSpec>,
    padding_left: Option<PaddingSpec>,
    padding_right: Option<PaddingSpec>,
    default_padding: Option<u16>,
) -> (r: (Option<u16>, Option<u16>))
    ensures
        r.0 == (match spec_resolve_padding(padding_left, default_padding) {
            Some(v) => Some(v),
            None => spec_resolve_padding(padding, default_padding),
        }),
        r.1 == (match spec_resolve_padding(padding_right, default_padding) {
            Some(v) => Some(v),
            None => spec_resolve_padding(padding, default_padding),
        }),
{
    let pad = resolve_padding(padding, default_padding);
    let left = match resolve_padding(padding_left, default_padding) {
        Some(v) => Some(v),
        None => pad,
    };
    let right = match resolve_padding(padding_right, default_padding) {
        Some(v) => Some(v),
        None => pad,
    };
    (left, right)
}

/// Left and right margin of a widget: each side's own setting, else the
/// shared `margin` setting, else zero.
pub fn resolve_margins(margin: Option<u16>, margin_left: Option<u16>, margin_right: Option<u16>) -> (r: (u16, u16))
    ensures
        r.0 == (match margin_left { Some(v) => v, None => match margin { Some(m) => m, None => 0u16 } }),
        r.1 == (match margin_right { Some(v) => v, None => match margin { Some(m) => m, None => 0u16 } }),
{
    let m = match margin {
        Some(m) => m,
        None => 0,
    };
    let l = match margin_left {
        Some(v) => v,
        None => m,
    };
    let r = match margin_right {
        Some(v) => v,
        None => m,
    };
    (l, r)
}

/// What a touch on a button does.
#[derive(Debug, PartialEq, Eq)]
pub enum Action {
    /// Press the keys (Linux input event codes) in order; release them in reverse.
    Key(Vec<u16>),
    /// Open the named panel.
    Panel(String),
    /// Return to the previous panel.
    Back,
    /// Run a shell command.
    Exec(String),
}

impl Clone for Action {
    fn clone(&self) -> (r: Action)
        ensures
            match (*self, r) {
                (Action::Key(a), Action::Key(b)) => a@ == b@,
                (Action::Key(_), _) => false,
                _ => r == *self,
            },
    {
        match self {
            Action::Key(keys) => {
                let k = keys.clone();
                assert(k@ =~= keys@);
                Action::Key(k)
            },
            Action::Panel(p) => Action::Panel(p.clone()),
            Action::Back => Action::Back,
            Action::Exec(c) => Action::Exec(c.clone()),
        }
    }
}

/// An action as a configuration file spells it: one of the tables
/// `{ key = [..] }`, `{ panel = ".." }`, `{ back = .. }`, `{ exec = ".." }`.
#[derive(Debug, Clone, PartialEq, Eq)]
pub enum ActionProxy {
    Key { key: Vec<u16> },
    Panel { panel: String },
    Back { back: bool },
    Exec { command: String },
}

/// Why an action table was refused.
#[derive(Debug, Clone, Copy, PartialEq, Eq)]
pub enum ActionError {
    /// `back = false`: the only accepted value is `back = true`.
    BackFalse,
}

/// The action an action table stands for.
pub fn action_from_proxy(p: ActionProxy) -> (r: Result<Action, ActionError>)
    ensures
        (match p {
            ActionProxy::Key { key } => r == Ok::<Action, ActionError>(Action::Key(key)),
            ActionProxy::Panel { panel } => r == Ok::<Action, ActionError>(Action::Panel(panel)),
            ActionProxy::Back { back } => if back {
                r == Ok::<Action, ActionError>(Action::Back)
            } else {
                r == Err::<Action, ActionError>(ActionError::BackFalse)
            },
            ActionProxy::Exec { command } => r == Ok::<Action, ActionError>(Action::Exec(command)),
        }),
{
    match p {
        ActionProxy::Key { key } => Ok(Action::Key(key)),
        ActionProxy::Panel { panel } => Ok(Action::Panel(panel)),
        ActionProxy::Back { back } => if back {
            Ok(Action::Back)
        } else {
            Err(ActionError::BackFalse)
        },
        ActionProxy::Exec { command } => Ok(Action::Exec(command)),
    }
}

/// The strftime pattern a clock widget uses: the presets "24hr" and "12hr",
/// or the given format itself.
pub open spec fn spec_clock_pattern(format: Seq<char>) -> Seq<char> {
    if format == "24hr"@ {
        "%H:%M    %a %-e %b"@
    } else if format == "12hr"@ {
        "%-l:%M %p    %a %-e %b"@
    } else {
        format
    }
}

/// The strftime pattern for a clock format setting.
pub fn clock_pattern(format: &str) -> (r: String)
    ensures
        r@ == spec_clock_pattern(format@),
{
    let f = format.to_owned();
    let h24 = "24hr".to_owned();
    let h12 = "12hr".to_owned();
    if f == h24 {
        "%H:%M    %a %-e %b".to_owned()
    } else if f == h12 {
        "%-l:%M %p    %a %-e %b".to_owned()
    } else {
        f
    }
}

} // verus!

verus! {

/// Values by name, each name once: the configuration's panels and
/// per-application rules.
#[derive(Debug)]
pub struct NamedMap<T> {
    pub entries: Vec<(String, T)>,
}

/// The names of a list of entries, in order.
pub open spec fn names_of<T>(e: Seq<(String, T)>) -> Seq<Seq<char>> {
    e.map_values(|p: (String, T)| p.0@)
}

impl<T> NamedMap<T> {
    /// Each name occurs once.
    pub open spec fn wf(self) -> bool {
        names_of(self.entries@).no_duplicates()
    }

    /// Whether some entry has name `k`.
    pub open spec fn has(self, k: Seq<char>) -> bool {
        exists|i: int| 0 <= i < self.entries@.len() && self.entries@[i].0@ == k
    }

    /// The position of the entry named `k`.
    pub open spec fn position(self, k: Seq<char>) -> int {
        choose|i: int| 0 <= i < self.entries@.len() && self.entries@[i].0@ == k
    }

    /// The entries as a map from name to value.
    pub open spec fn map(self) -> Map<Seq<char>, T> {
        Map::new(|k: Seq<char>| self.has(k), |k: Seq<char>| self.entries@[self.position(k)].1)
    }

    proof fn lemma_map_at(self, i: int)
        requires
            self.wf(),
            0 <= i < self.entries@.len(),
        ensures
            self.map().contains_key(self.entries@[i].0@),
            self.map()[self.entries@[i].0@] == self.entries@[i].1,
    {
        let k = self.entries@[i].0@;
        assert(self.has(k));
        let j = self.position(k);
        assert(names_of(self.entries@)[i] == k);
        assert(names_of(self.entries@)[j] == k);
        assert(i == j);
    }

    /// No entries.
    pub fn new() -> (m: NamedMap<T>)
        ensures
            m.wf(),
            m.map() == Map::<Seq<char>, T>::empty(),
    {
        let m = NamedMap { entries: Vec::new() };
        assert(m.map() =~= Map::<Seq<char>, T>::empty());
        m
    }

    fn find(&self, key: &str) -> (r: Option<usize>)
        ensures
            match r {
                Some(i) => i < self.entries@.len() && self.entries@[i as int].0@ == key@,
                None => !self.has(key@),
            },
    {
        let k = key.to_owned();
        let mut i: usize = 0;
        while i < self.entries.len()
            invariant
                k@ == key@,
                i <= self.entries@.len(),
                forall|j: int| 0 <= j < i ==> #[trigger] self.entries@[j].0@ != key@,
            decreases self.entries@.len() - i,
        {
            if self.entries[i].0 == k {
                return Some(i);
            }
            i = i + 1;
        }
        None
    }

    /// The value named `key`, if any.
    pub fn get(&self, key: &str) -> (r: Option<&T>)
        requires
            self.wf(),
        ensures
            self.map().contains_key(key@) ==> r == Some(&self.map()[key@]),
            !self.map().contains_key(key@) ==> r.is_none(),
    {
        match self.find(key) {
            Some(i) => {
                proof {
                    self.lemma_map_at(i as int);
                }
                Some(&self.entries[i].1)
            },
            None => None,
        }
    }

    /// Stores `value` under `key`, replacing an entry of that name.
    pub fn insert(&mut self, key: String, value: T)
        requires
            old(self).wf(),
        ensures
            final(self).wf(),
            final(self).map() == old(self).map().insert(key@, value),
    {
        let ghost k = key@;
        let ghost v = value;
        match self.find(key.as_str()) {
            Some(i) => {
                self.entries.set(i, (key, value));
                proof {
                    assert(names_of(self.entries@) =~= names_of(old(self).entries@));
                    assert forall|s: Seq<char>| #[trigger] self.map().contains_key(s) <==> old(self).map().insert(k, v).contains_key(s) by {
                        if old(self).has(s) {
                            let j = choose|j: int| 0 <= j < old(self).entries@.len() && old(self).entries@[j].0@ == s;
                            assert(self.entries@[j].0@ == s);
                        }
                        if self.has(s) {
                            let j = choose|j: int| 0 <= j < self.entries@.len() && self.entries@[j].0@ == s;
                            assert(old(self).entries@[j].0@ == s);
                        }
                    }
                    assert forall|s: Seq<char>| self.map().contains_key(s) implies #[trigger] self.map()[s] == old(self).map().insert(k, v)[s] by {
                        let j = choose|j: int| 0 <= j < self.entries@.len() && self.entries@[j].0@ == s;
                        self.lemma_map_at(j);
                        if s != k {
                            old(self).lemma_map_at(j);
                        } else {
                            assert(names_of(self.entries@)[j] == names_of(self.entries@)[i as int]);
                        }
                    }
                    assert(self.map() =~= old(self).map().insert(k, v));
                }
            },
            None => {
                self.entries.push((key, value));
                proof {
                    assert(names_of(self.entries@) =~= names_of(old(self).entries@).push(k));
                    assert(!names_of(old(self).entries@).contains(k)) by {
                        if names_of(old(self).entries@).contains(k) {
                            let j = choose|j: int| 0 <= j < names_of(old(self).entries@).len() && #[trigger] names_of(old(self).entries@)[j] == k;
                            assert(old(self).entries@[j].0@ == k);
                        }
                    }
                    assert forall|s: Seq<char>| #[trigger] self.map().contains_key(s) <==> old(self).map().insert(k, v).contains_key(s) by {
                        if old(self).has(s) {
                            let j = choose|j: int| 0 <= j < old(self).entries@.len() && old(self).entries@[j].0@ == s;
                            assert(self.entries@[j].0@ == s);
                        }
                        if s == k {
                            assert(self.entries@[self.entries@.len() - 1].0@ == s);
                        }
                        if self.has(s) && s != k {
                            let j = choose|j: int| 0 <= j < self.entries@.len() && self.entries@[j].0@ == s;
                            assert(old(self).entries@[j].0@ == s);
                        }
                    }
                    assert forall|s: Seq<char>| self.map().contains_key(s) implies #[trigger] self.map()[s] == old(self).map().insert(k, v)[s] by {
                        let j = choose|j: int| 0 <= j < self.entries@.len() && self.entries@[j].0@ == s;
                        self.lemma_map_at(j);
                        if s != k {
                            old(self).lemma_map_at(j);
                        } else {
                            self.lemma_map_at(self.entries@.len() - 1);
                        }
                    }
                    assert(self.map() =~= old(self).map().insert(k, v));
                }
            },
        }
    }
}

/// A map's entries added in order, later ones replacing earlier ones of the
/// same name, as `HashMap::insert` does.
pub open spec fn insert_all<T>(m: Map<Seq<char>, T>, e: Seq<(String, T)>) -> Map<Seq<char>, T>
    decreases e.len(),
{
    if e.len() == 0 {
        m
    } else {
        insert_all(m, e.drop_last()).insert(e.last().0@, e.last().1)
    }
}

/// The panels (or application rules) of the system configuration, with
/// the user's added on top: a user entry replaces the system entry of the
/// same name.
pub fn merge_named<T>(system: Vec<(String, T)>, user: Vec<(String, T)>) -> (m: NamedMap<T>)
    ensures
        m.wf(),
        m.map() == insert_all(insert_all(Map::<Seq<char>, T>::empty(), system@), user@),
{
    let mut m: NamedMap<T> = NamedMap::new();
    let ghost s0 = system@;
    let ghost u0 = user@;
    let mut src = system;
    let ghost mut k: int = 0;
    while src.len() > 0
        invariant
            m.wf(),
            0 <= k <= s0.len(),
            src@ == s0.subrange(k, s0.len() as int),
            m.map() == insert_all(Map::<Seq<char>, T>::empty(), s0.subrange(0, k)),
        decreases src@.len(),
    {
        let (key, v) = src.remove(0);
        proof {
            assert(s0.subrange(0, k + 1).drop_last() =~= s0.subrange(0, k));
            assert(s0.subrange(0, k + 1).last() == s0[k]);
        }
        m.insert(key, v);
        proof {
            k = k + 1;
            assert(src@ =~= s0.subrange(k, s0.len() as int));
        }
    }
    assert(s0.subrange(0, s0.len() as int) =~= s0);
    let ghost base = m.map();
    let mut srcu = user;
    let ghost mut j: int = 0;
    while srcu.len() > 0
        invariant
            m.wf(),
            0 <= j <= u0.len(),
            srcu@ == u0.subrange(j, u0.len() as int),
            m.map() == insert_all(base, u0.subrange(0, j)),
        decreases srcu@.len(),
    {
        let (key, v) = srcu.remove(0);
        proof {
            assert(u0.subrange(0, j + 1).drop_last() =~= u0.subrange(0, j));
            assert(u0.subrange(0, j + 1).last() == u0[j]);
        }
        m.insert(key, v);
        proof {
            j = j + 1;
            assert(srcu@ =~= u0.subrange(j, u0.len() as int));
        }
    }
    assert(u0.subrange(0, u0.len() as int) =~= u0);
    m
}

/// A layer's widgets: the user's list if the user configuration gives one,
/// else the system's, else none.
pub fn choose_layer<T>(system: Option<Vec<T>>, user: Option<Vec<T>>) -> (r: Vec<T>)
    ensures
        r@ == (match user {
            Some(u) => u@,
            None => match system {
                Some(s) => s@,
                None => Seq::<T>::empty(),
            },
        }),
{
    match user {
        Some(u) => u,
        None => match system {
            Some(s) => s,
            None => Vec::new(),
        },
    }
}

/// The widgets of a layer as `choose_layer` picks them.
pub open spec fn spec_choose_layer<T>(system: Option<Vec<T>>, user: Option<Vec<T>>) -> Seq<T> {
    match user {
        Some(u) => u@,
        None => match system {
            Some(s) => s@,
            None => Seq::<T>::empty(),
        },
    }
}

/// A layer's widgets as `choose_layer` picks them, or `fallback` (the
/// default layer) when that leaves none.
pub fn layer_or_default<T>(system: Option<Vec<T>>, user: Option<Vec<T>>, fallback: Vec<T>) -> (r: Vec<T>)
    ensures
        r@ == (if spec_choose_layer(system, user).len() > 0 { spec_choose_layer(system, user) } else { fallback@ }),
        user matches Some(u) ==> (u@.len() > 0 ==> r@ == u@),
{
    let chosen = choose_layer(system, user);
    if chosen.len() > 0 {
        chosen
    } else {
        fallback
    }
}

/// A layer the user's configuration gives with widgets is exactly the user's
/// list, whatever the system's configuration gives for it; without the
/// user's, the system's non-empty list stands; the default row is taken only
/// when neither gives a widget.
pub proof fn law_user_layer_wins<T>(system: Option<Vec<T>>, user: Option<Vec<T>>, fallback: Seq<T>)
    ensures
        ({
            let r = if spec_choose_layer(system, user).len() > 0 { spec_choose_layer(system, user) } else { fallback };
            &&& user matches Some(u) ==> (u@.len() > 0 ==> r == u@) && (u@.len() == 0 ==> r == fallback)
            &&& user.is_none() ==> (system matches Some(s) ==> (s@.len() > 0 ==> r == s@) && (s@.len() == 0 ==> r == fallback))
            &&& (user.is_none() && system.is_none()) ==> r == fallback
        }),
{
}

/// A global setting: the user's value if given, else the system's.
pub fn merge_setting<T>(system: Option<T>, user: Option<T>) -> (r: Option<T>)
    ensures
        r == (match user {
            Some(u) => Some(u),
            None => system,
        }),
{
    match user {
        Some(u) => Some(u),
        None => system,
    }
}

/// Linux input event codes of the function keys F1 to F12.
pub open spec fn function_key_code(i: int) -> u16 {
    if 1 <= i <= 10 { (58 + i) as u16 } else if i == 11 { 87u16 } else { 88u16 }
}

/// The label "F1" .. "F12".
pub open spec fn function_key_label(i: int) -> Seq<char> {
    if i == 1 { "F1"@ } else if i == 2 { "F2"@ } else if i == 3 { "F3"@ } else if i == 4 { "F4"@ }
    else if i == 5 { "F5"@ } else if i == 6 { "F6"@ } else if i == 7 { "F7"@ } else if i == 8 { "F8"@ }
    else if i == 9 { "F9"@ } else if i == 10 { "F10"@ } else if i == 11 { "F11"@ } else { "F12"@ }
}

/// The twelve function keys, labelled, in order: the layer shown when a
/// configuration gives no main layer, and the bar without a desktop session.
pub fn function_keys() -> (v: Vec<(String, u16)>)
    ensures
        v@.len() == 12,
        forall|i: int| 0 <= i < 12 ==> #[trigger] v@[i].0@ == function_key_label(i + 1) && v@[i].1 == function_key_code(i + 1),
{
    let v = vec![
        ("F1".to_owned(), 59u16), ("F2".to_owned(), 60u16), ("F3".to_owned(), 61u16),
        ("F4".to_owned(), 62u16), ("F5".to_owned(), 63u16), ("F6".to_owned(), 64u16),
        ("F7".to_owned(), 65u16), ("F8".to_owned(), 66u16), ("F9".to_owned(), 67u16),
        ("F10".to_owned(), 68u16), ("F11".to_owned(), 87u16), ("F12".to_owned(), 88u16),
    ];
    v
}

} // verus!

verus! {

/// The kinds of widget a configuration names.
#[derive(Debug, Clone, Copy, PartialEq, Eq, Structural)]
pub enum WidgetTag {
    Button,
    Slider,
    Battery,
    Clock,
    Dynamic,
    Container,
}

/// How one widget of a layer's configuration is built.
#[derive(Debug, Clone, Copy, PartialEq, Eq, Structural)]
pub enum ExpandStep {
    /// The configured widget at this index, as it is.
    Keep(usize),
    /// The dynamic widget at this index, as a container of the active
    /// application's rule widgets.
    RuleContainer(usize),
    /// The dynamic widget at this index, as a container holding a text
    /// button with the active window's class.
    ClassContainer(usize),
    /// A lone "ktouchbar" text button, for a layer left with no widgets.
    Placeholder,
}

/// The steps for the first `n` widgets: dynamic widgets are replaced by the
/// active application's widgets, and dropped while no window is known.
pub open spec fn expand_steps(tags: Seq<WidgetTag>, n: int, class_known: bool, has_rule: bool) -> Seq<ExpandStep>
    decreases n,
{
    if n <= 0 {
        Seq::empty()
    } else {
        let prev = expand_steps(tags, n - 1, class_known, has_rule);
        if tags[n - 1] == WidgetTag::Dynamic {
            if class_known {
                prev.push(if has_rule { ExpandStep::RuleContainer((n - 1) as usize) } else { ExpandStep::ClassContainer((n - 1) as usize) })
            } else {
                prev
            }
        } else {
            prev.push(ExpandStep::Keep((n - 1) as usize))
        }
    }
}

/// The plan for a whole layer: the steps, or the placeholder if none.
pub open spec fn spec_expand_plan(tags: Seq<WidgetTag>, class_known: bool, has_rule: bool) -> Seq<ExpandStep> {
    let s = expand_steps(tags, tags.len() as int, class_known, has_rule);
    if s.len() == 0 { seq![ExpandStep::Placeholder] } else { s }
}

/// How to build a layer from its configured widget kinds, given whether a
/// window class is known and whether the configuration has rules for it.
pub fn expand_plan(tags: &Vec<WidgetTag>, class_known: bool, has_rule: bool) -> (r: Vec<ExpandStep>)
    ensures
        r@ == spec_expand_plan(tags@, class_known, has_rule),
{
    let mut out: Vec<ExpandStep> = Vec::new();
    let mut i: usize = 0;
    while i < tags.len()
        invariant
            i <= tags@.len(),
            out@ == expand_steps(tags@, i as int, class_known, has_rule),
        decreases tags@.len() - i,
    {
        if tags[i] == WidgetTag::Dynamic {
            if class_known {
                if has_rule {
                    out.push(ExpandStep::RuleContainer(i));
                } else {
                    out.push(ExpandStep::ClassContainer(i));
                }
            }
        } else {
            out.push(ExpandStep::Keep(i));
        }
        i = i + 1;
    }
    if out.len() == 0 {
        out.push(ExpandStep::Placeholder);
    }
    out
}

/// The configured widget a step builds, or -1 for the placeholder.
pub open spec fn step_source(s: ExpandStep) -> int {
    match s {
        ExpandStep::Keep(i) => i as int,
        ExpandStep::RuleContainer(i) => i as int,
        ExpandStep::ClassContainer(i) => i as int,
        ExpandStep::Placeholder => -1,
    }
}

proof fn lemma_expand_steps_members(tags: Seq<WidgetTag>, n: int, class_known: bool, has_rule: bool)
    requires
        0 <= n <= tags.len(),
        tags.len() <= usize::MAX,
    ensures
        ({
            let s = expand_steps(tags, n, class_known, has_rule);
            &&& forall|a: int| 0 <= a < s.len() ==> 0 <= #[trigger] step_source(s[a]) < n
            &&& forall|a: int, b: int| 0 <= a < b < s.len() ==> step_source(#[trigger] s[a]) < step_source(#[trigger] s[b])
            &&& forall|a: int| 0 <= a < s.len() ==> (#[trigger] s[a] matches ExpandStep::Keep(i) ==> tags[i as int] != WidgetTag::Dynamic)
            &&& forall|a: int| 0 <= a < s.len() ==> (#[trigger] s[a] matches ExpandStep::RuleContainer(i) ==> tags[i as int] == WidgetTag::Dynamic && class_known && has_rule)
            &&& forall|a: int| 0 <= a < s.len() ==> (#[trigger] s[a] matches ExpandStep::ClassContainer(i) ==> tags[i as int] == WidgetTag::Dynamic && class_known && !has_rule)
            &&& forall|a: int| 0 <= a < s.len() ==> !(#[trigger] s[a] is Placeholder)
            &&& forall|i: int| 0 <= i < n && tags[i] != WidgetTag::Dynamic ==> s.contains(ExpandStep::Keep(i as usize))
            &&& forall|i: int| 0 <= i < n && tags[i] == WidgetTag::Dynamic && class_known && has_rule ==> s.contains(ExpandStep::RuleContainer(i as usize))
            &&& forall|i: int| 0 <= i < n && tags[i] == WidgetTag::Dynamic && class_known && !has_rule ==> s.contains(ExpandStep::ClassContainer(i as usize))
            &&& (s.len() == 0 <==> forall|i: int| 0 <= i < n ==> tags[i] == WidgetTag::Dynamic && !class_known)
        }),
    decreases n,
{
    if n > 0 {
        lemma_expand_steps_members(tags, n - 1, class_known, has_rule);
        let prev = expand_steps(tags, n - 1, class_known, has_rule);
        let s = expand_steps(tags, n, class_known, has_rule);
        if s.len() == prev.len() + 1 {
            assert(s =~= prev.push(s[s.len() - 1]));
            assert forall|i: int| 0 <= i < n - 1 && tags[i] != WidgetTag::Dynamic implies s.contains(ExpandStep::Keep(i as usize)) by {
                let a = choose|a: int| 0 <= a < prev.len() && prev[a] == ExpandStep::Keep(i as usize);
                assert(s[a] == prev[a]);
            }
            assert forall|i: int| 0 <= i < n - 1 && tags[i] == WidgetTag::Dynamic && class_known && has_rule implies s.contains(ExpandStep::RuleContainer(i as usize)) by {
                let a = choose|a: int| 0 <= a < prev.len() && prev[a] == ExpandStep::RuleContainer(i as usize);
                assert(s[a] == prev[a]);
            }
            assert forall|i: int| 0 <= i < n - 1 && tags[i] == WidgetTag::Dynamic && class_known && !has_rule implies s.contains(ExpandStep::ClassContainer(i as usize)) by {
                let a = choose|a: int| 0 <= a < prev.len() && prev[a] == ExpandStep::ClassContainer(i as usize);
                assert(s[a] == prev[a]);
            }
            assert(s[s.len() - 1] == s[prev.len() as int]);
            assert(s.contains(s[prev.len() as int]));
        } else {
            assert(s == prev);
        }
    }
}

/// How a layer is built from its configuration: every configured widget that
/// is not dynamic is kept as it is, in its place; each dynamic widget becomes
/// the active application's rule widgets when a window is focused and rules
/// name its class, a button with the window's class when a window is focused
/// and no rule names it, and nothing when no window is known; the steps come
/// in the configured order; the placeholder appears alone, exactly when
/// nothing else is left.
pub proof fn law_expand_plan_keeps_configured(tags: Seq<WidgetTag>, class_known: bool, has_rule: bool)
    requires
        tags.len() <= usize::MAX,
    ensures
        ({
            let p = spec_expand_plan(tags, class_known, has_rule);
            &&& forall|i: int| 0 <= i < tags.len() && tags[i] != WidgetTag::Dynamic ==> p.contains(ExpandStep::Keep(i as usize))
            &&& forall|i: int| 0 <= i < tags.len() && tags[i] == WidgetTag::Dynamic && class_known && has_rule ==> p.contains(ExpandStep::RuleContainer(i as usize))
            &&& forall|i: int| 0 <= i < tags.len() && tags[i] == WidgetTag::Dynamic && class_known && !has_rule ==> p.contains(ExpandStep::ClassContainer(i as usize))
            &&& forall|a: int| 0 <= a < p.len() ==> (#[trigger] p[a] matches ExpandStep::Keep(i) ==> i < tags.len() && tags[i as int] != WidgetTag::Dynamic)
            &&& forall|a: int| 0 <= a < p.len() ==> (#[trigger] p[a] matches ExpandStep::RuleContainer(i) ==> i < tags.len() && tags[i as int] == WidgetTag::Dynamic && class_known && has_rule)
            &&& forall|a: int| 0 <= a < p.len() ==> (#[trigger] p[a] matches ExpandStep::ClassContainer(i) ==> i < tags.len() && tags[i as int] == WidgetTag::Dynamic && class_known && !has_rule)
            &&& forall|a: int, b: int| 0 <= a < b < p.len() ==> step_source(#[trigger] p[a]) < step_source(#[trigger] p[b])
            &&& (p.contains(ExpandStep::Placeholder) <==> forall|i: int| 0 <= i < tags.len() ==> tags[i] == WidgetTag::Dynamic && !class_known)
            &&& p.contains(ExpandStep::Placeholder) ==> p == seq![ExpandStep::Placeholder]
        }),
{
    lemma_expand_steps_members(tags, tags.len() as int, class_known, has_rule);
    let s = expand_steps(tags, tags.len() as int, class_known, has_rule);
    let p = spec_expand_plan(tags, class_known, has_rule);
    if s.len() == 0 {
        assert(p[0] == ExpandStep::Placeholder);
        assert(p.contains(ExpandStep::Placeholder));
    } else {
        assert(p == s);
        if p.contains(ExpandStep::Placeholder) {
            let a = choose|a: int| 0 <= a < p.len() && p[a] == ExpandStep::Placeholder;
            assert(!(s[a] is Placeholder));
        }
        assert forall|a: int| 0 <= a < p.len() implies (#[trigger] p[a] matches ExpandStep::Keep(i) ==> i < tags.len() && tags[i as int] != WidgetTag::Dynamic) by {
            assert(0 <= step_source(s[a]) < tags.len());
        }
        assert forall|a: int| 0 <= a < p.len() implies (#[trigger] p[a] matches ExpandStep::RuleContainer(i) ==> i < tags.len() && tags[i as int] == WidgetTag::Dynamic && class_known && has_rule) by {
            assert(0 <= step_source(s[a]) < tags.len());
        }
        assert forall|a: int| 0 <= a < p.len() implies (#[trigger] p[a] matches ExpandStep::ClassContainer(i) ==> i < tags.len() && tags[i as int] == WidgetTag::Dynamic && class_known && !has_rule) by {
            assert(0 <= step_source(s[a]) < tags.len());
        }
    }
}

/// Whether a layer shows a clock and whether it shows a battery.
pub open spec fn spec_layer_flags(tags: Seq<WidgetTag>) -> (bool, bool) {
    (tags.contains(WidgetTag::Clock), tags.contains(WidgetTag::Battery))
}

/// Whether a layer built from these widget kinds shows a clock, and
/// whether it shows a battery (each at its top level).
pub fn layer_flags(tags: &Vec<WidgetTag>) -> (r: (bool, bool))
    ensures
        r == spec_layer_flags(tags@),
{
    let mut clock = false;
    let mut battery = false;
    let mut i: usize = 0;
    while i < tags.len()
        invariant
            i <= tags@.len(),
            clock == tags@.subrange(0, i as int).contains(WidgetTag::Clock),
            battery == tags@.subrange(0, i as int).contains(WidgetTag::Battery),
        decreases tags@.len() - i,
    {
        proof {
            let a = tags@.subrange(0, i as int);
            let b = tags@.subrange(0, i + 1);
            assert(b =~= a.push(tags@[i as int]));
            assert forall|t: WidgetTag| b.contains(t) <==> (a.contains(t) || t == tags@[i as int]) by {
                if b.contains(t) {
                    let p = choose|p: int| 0 <= p < b.len() && #[trigger] b[p] == t;
                    if p < i {
                        assert(a[p] == t);
                    }
                }
                if a.contains(t) {
                    let p = choose|p: int| 0 <= p < a.len() && #[trigger] a[p] == t;
                    assert(b[p] == t);
                }
                if t == tags@[i as int] {
                    assert(b[i as int] == t);
                }
            }
        }
        if tags[i] == WidgetTag::Clock {
            clock = true;
        }
        if tags[i] == WidgetTag::Battery {
            battery = true;
        }
        i = i + 1;
    }
    assert(tags@.subrange(0, tags@.len() as int) =~= tags@);
    (clock, battery)
}

/// What a button shows.
#[derive(Debug, Clone, PartialEq, Eq)]
pub enum ButtonFace {
    Text(String),
    Icon(String),
}

/// A button shows its text if it has one, else its icon; a button needs one
/// of the two.
pub fn button_face(text: Option<String>, icon: Option<String>) -> (r: ButtonFace)
    requires
        text.is_some() || icon.is_some(),
    ensures
        match text {
            Some(t) => r == ButtonFace::Text(t),
            None => r == ButtonFace::Icon(icon.unwrap()),
        },
{
    match text {
        Some(t) => ButtonFace::Text(t),
        None => ButtonFace::Icon(icon.unwrap()),
    }
}

/// A widget's icon theme: its own setting, else the global one.
pub fn resolve_theme(own: Option<String>, global: Option<&str>) -> (r: Option<String>)
    ensures
        match own {
            Some(t) => r == Some(t),
            None => match global {
                Some(g) => r matches Some(x) && x@ == g@,
                None => r.is_none(),
            },
        },
{
    match own {
        Some(t) => Some(t),
        None => match global {
            Some(g) => Some(g.to_owned()),
            None => None,
        },
    }
}

/// Whether a slider writes while dragged: its own setting, else the global
/// one, else not.
pub fn resolve_live_update(own: Option<bool>, global: Option<bool>) -> (r: bool)
    ensures
        r == (match own {
            Some(v) => v,
            None => match global {
                Some(g) => g,
                None => false,
            },
        }),
{
    match own {
        Some(v) => v,
        None => match global {
            Some(g) => g,
            None => false,
        },
    }
}

/// A slider handle's diameter: the configured size, else 20 pixels.
pub fn handle_size_or_default(size: Option<u32>) -> (r: u32)
    ensures
        r == (match size { Some(s) => s, None => 20u32 }),
{
    match size {
        Some(s) => s,
        None => 20,
    }
}

/// An entry added after every other entry of its name is the one that
/// stands: the user's panel replaces the system's.
pub proof fn law_last_entry_wins<T>(m: Map<Seq<char>, T>, e: Seq<(String, T)>, i: int)
    requires
        0 <= i < e.len(),
        forall|j: int| i < j < e.len() ==> #[trigger] e[j].0@ != e[i].0@,
    ensures
        insert_all(m, e).contains_key(e[i].0@),
        insert_all(m, e)[e[i].0@] == e[i].1,
    decreases e.len(),
{
    if i < e.len() - 1 {
        law_last_entry_wins(m, e.drop_last(), i);
        assert(e.last().0@ != e[i].0@);
    }
}

/// A name that only the system gives keeps the system's entry after the
/// user's are added.
pub proof fn law_untouched_entry_kept<T>(m: Map<Seq<char>, T>, e: Seq<(String, T)>, k: Seq<char>)
    requires
        forall|j: int| 0 <= j < e.len() ==> #[trigger] e[j].0@ != k,
    ensures
        insert_all(m, e).contains_key(k) == m.contains_key(k),
        m.contains_key(k) ==> insert_all(m, e)[k] == m[k],
    decreases e.len(),
{
    if e.len() > 0 {
        law_untouched_entry_kept(m, e.drop_last(), k);
        assert(e.last().0@ != k);
    }
}

} // verus!

verus! {

/// The global settings that a configuration file may give, each optional.
#[derive(Debug, Clone, PartialEq, Eq, Default)]
pub struct GlobalOverrides {
    pub debug: Option<bool>,
    pub show_outline: Option<bool>,
    pub enable_pixel_shift: Option<bool>,
    pub font_template: Option<String>,
    pub adaptive_brightness: Option<bool>,
    pub active_brightness: Option<u32>,
    pub brightness_dim_timeout_ms: Option<u32>,
    pub brightness_off_timeout_ms: Option<u32>,
    pub dimmed_brightness: Option<u32>,
    pub panel_timeout_seconds: Option<u32>,
    pub icon_theme: Option<String>,
    pub default_padding: Option<u16>,
    pub slider_color_source: Option<String>,
    pub slider_live_update: Option<bool>,
}

/// The global settings in force.
#[derive(Debug, Clone, PartialEq, Eq)]
pub struct GlobalSettings {
    pub debug: bool,
    pub show_outline: bool,
    pub enable_pixel_shift: bool,
    pub font_template: String,
    pub adaptive_brightness: bool,
    pub active_brightness: u32,
    pub brightness_dim_timeout_ms: u32,
    pub brightness_off_timeout_ms: u32,
    pub dimmed_brightness: u32,
    pub panel_timeout_seconds: u32,
    pub icon_theme: String,
    pub default_padding: Option<u16>,
    pub slider_color_source: String,
    pub slider_live_update: bool,
}

/// The user's value if given, else the system's.
pub open spec fn pick<T>(system: Option<T>, user: Option<T>) -> Option<T> {
    match user {
        Some(u) => Some(u),
        None => system,
    }
}

/// The value given, else `default`.
pub open spec fn given_or<T>(o: Option<T>, default: T) -> T {
    match o {
        Some(v) => v,
        None => default,
    }
}

/// The view of a string setting given, else `default`.
pub open spec fn text_or(o: Option<String>, default: Seq<char>) -> Seq<char> {
    match o {
        Some(v) => v@,
        None => default,
    }
}

/// The system file's global settings with the user's on top.
pub open spec fn spec_merge_globals(s: GlobalOverrides, u: GlobalOverrides) -> GlobalOverrides {
    GlobalOverrides {
        debug: pick(s.debug, u.debug),
        show_outline: pick(s.show_outline, u.show_outline),
        enable_pixel_shift: pick(s.enable_pixel_shift, u.enable_pixel_shift),
        font_template: pick(s.font_template, u.font_template),
        adaptive_brightness: pick(s.adaptive_brightness, u.adaptive_brightness),
        active_brightness: pick(s.active_brightness, u.active_brightness),
        brightness_dim_timeout_ms: pick(s.brightness_dim_timeout_ms, u.brightness_dim_timeout_ms),
        brightness_off_timeout_ms: pick(s.brightness_off_timeout_ms, u.brightness_off_timeout_ms),
        dimmed_brightness: pick(s.dimmed_brightness, u.dimmed_brightness),
        panel_timeout_seconds: pick(s.panel_timeout_seconds, u.panel_timeout_seconds),
        icon_theme: pick(s.icon_theme, u.icon_theme),
        default_padding: pick(s.default_padding, u.default_padding),
        slider_color_source: pick(s.slider_color_source, u.slider_color_source),
        slider_live_update: pick(s.slider_live_update, u.slider_live_update),
    }
}

/// A file that gives no global setting.
pub open spec fn no_overrides() -> GlobalOverrides {
    GlobalOverrides {
        debug: None,
        show_outline: None,
        enable_pixel_shift: None,
        font_template: None,
        adaptive_brightness: None,
        active_brightness: None,
        brightness_dim_timeout_ms: None,
        brightness_off_timeout_ms: None,
        dimmed_brightness: None,
        panel_timeout_seconds: None,
        icon_theme: None,
        default_padding: None,
        slider_color_source: None,
        slider_live_update: None,
    }
}

/// Every global setting that the user's file gives is the merged setting,
/// whatever the system file gives; every other merged setting is the system
/// file's. So merging over a file that gives nothing, or merging a file that
/// gives nothing over another, changes nothing.
pub proof fn law_user_settings_win(s: GlobalOverrides, u: GlobalOverrides)
    ensures
        ({
            let m = spec_merge_globals(s, u);
            &&& (u.debug matches Some(v) ==> m.debug == Some(v)) && (u.debug.is_none() ==> m.debug == s.debug)
            &&& (u.show_outline matches Some(v) ==> m.show_outline == Some(v)) && (u.show_outline.is_none() ==> m.show_outline == s.show_outline)
            &&& (u.enable_pixel_shift matches Some(v) ==> m.enable_pixel_shift == Some(v)) && (u.enable_pixel_shift.is_none() ==> m.enable_pixel_shift == s.enable_pixel_shift)
            &&& (u.font_template matches Some(v) ==> m.font_template == Some(v)) && (u.font_template.is_none() ==> m.font_template == s.font_template)
            &&& (u.adaptive_brightness matches Some(v) ==> m.adaptive_brightness == Some(v)) && (u.adaptive_brightness.is_none() ==> m.adaptive_brightness == s.adaptive_brightness)
            &&& (u.active_brightness matches Some(v) ==> m.active_brightness == Some(v)) && (u.active_brightness.is_none() ==> m.active_brightness == s.active_brightness)
            &&& (u.brightness_dim_timeout_ms matches Some(v) ==> m.brightness_dim_timeout_ms == Some(v)) && (u.brightness_dim_timeout_ms.is_none() ==> m.brightness_dim_timeout_ms == s.brightness_dim_timeout_ms)
            &&& (u.brightness_off_timeout_ms matches Some(v) ==> m.brightness_off_timeout_ms == Some(v)) && (u.brightness_off_timeout_ms.is_none() ==> m.brightness_off_timeout_ms == s.brightness_off_timeout_ms)
            &&& (u.dimmed_brightness matches Some(v) ==> m.dimmed_brightness == Some(v)) && (u.dimmed_brightness.is_none() ==> m.dimmed_brightness == s.dimmed_brightness)
            &&& (u.panel_timeout_seconds matches Some(v) ==> m.panel_timeout_seconds == Some(v)) && (u.panel_timeout_seconds.is_none() ==> m.panel_timeout_seconds == s.panel_timeout_seconds)
            &&& (u.icon_theme matches Some(v) ==> m.icon_theme == Some(v)) && (u.icon_theme.is_none() ==> m.icon_theme == s.icon_theme)
            &&& (u.default_padding matches Some(v) ==> m.default_padding == Some(v)) && (u.default_padding.is_none() ==> m.default_padding == s.default_padding)
            &&& (u.slider_color_source matches Some(v) ==> m.slider_color_source == Some(v)) && (u.slider_color_source.is_none() ==> m.slider_color_source == s.slider_color_source)
            &&& (u.slider_live_update matches Some(v) ==> m.slider_live_update == Some(v)) && (u.slider_live_update.is_none() ==> m.slider_live_update == s.slider_live_update)
        }),
        spec_merge_globals(s, no_overrides()) == s,
        spec_merge_globals(no_overrides(), u) == u,
{
}

/// Merges the global settings of the system file and the user's file: each
/// setting the user gives replaces the system's.
pub fn merge_globals(system: GlobalOverrides, user: GlobalOverrides) -> (r: GlobalOverrides)
    ensures
        r == spec_merge_globals(system, user),
{
    GlobalOverrides {
        debug: merge_setting(system.debug, user.debug),
        show_outline: merge_setting(system.show_outline, user.show_outline),
        enable_pixel_shift: merge_setting(system.enable_pixel_shift, user.enable_pixel_shift),
        font_template: merge_setting(system.font_template, user.font_template),
        adaptive_brightness: merge_setting(system.adaptive_brightness, user.adaptive_brightness),
        active_brightness: merge_setting(system.active_brightness, user.active_brightness),
        brightness_dim_timeout_ms: merge_setting(system.brightness_dim_timeout_ms, user.brightness_dim_timeout_ms),
        brightness_off_timeout_ms: merge_setting(system.brightness_off_timeout_ms, user.brightness_off_timeout_ms),
        dimmed_brightness: merge_setting(system.dimmed_brightness, user.dimmed_brightness),
        panel_timeout_seconds: merge_setting(system.panel_timeout_seconds, user.panel_timeout_seconds),
        icon_theme: merge_setting(system.icon_theme, user.icon_theme),
        default_padding: merge_setting(system.default_padding, user.default_padding),
        slider_color_source: merge_setting(system.slider_color_source, user.slider_color_source),
        slider_live_update: merge_setting(system.slider_live_update, user.slider_live_update),
    }
}

fn text_setting(o: Option<String>, default: &str) -> (r: String)
    ensures
        r@ == text_or(o, default@),
{
    match o {
        Some(v) => v,
        None => default.to_owned(),
    }
}

/// The settings in force: each one given, else its default (no debug output,
/// outlines shown, no pixel shift, the "sans-serif" font, adaptive
/// brightness, active level 128, dimming after 120 s, off after 300 s, dimmed
/// level 1, panels closing after 5 s, the "auto" icon theme, no default
/// padding, KDE slider colours, sliders written on release).
pub fn resolve_globals(g: GlobalOverrides) -> (r: GlobalSettings)
    ensures
        r.debug == given_or(g.debug, false),
        r.show_outline == given_or(g.show_outline, true),
        r.enable_pixel_shift == given_or(g.enable_pixel_shift, false),
        r.font_template@ == text_or(g.font_template, "sans-serif"@),
        r.adaptive_brightness == given_or(g.adaptive_brightness, true),
        r.active_brightness == given_or(g.active_brightness, 128u32),
        r.brightness_dim_timeout_ms == given_or(g.brightness_dim_timeout_ms, 120000u32),
        r.brightness_off_timeout_ms == given_or(g.brightness_off_timeout_ms, 300000u32),
        r.dimmed_brightness == given_or(g.dimmed_brightness, 1u32),
        r.panel_timeout_seconds == given_or(g.panel_timeout_seconds, 5u32),
        r.icon_theme@ == text_or(g.icon_theme, "auto"@),
        r.default_padding == g.default_padding,
        r.slider_color_source@ == text_or(g.slider_color_source, "kde"@),
        r.slider_live_update == given_or(g.slider_live_update, false),
{
    GlobalSettings {
        debug: match g.debug { Some(v) => v, None => false },
        show_outline: match g.show_outline { Some(v) => v, None => true },
        enable_pixel_shift: match g.enable_pixel_shift { Some(v) => v, None => false },
        font_template: text_setting(g.font_template, "sans-serif"),
        adaptive_brightness: match g.adaptive_brightness { Some(v) => v, None => true },
        active_brightness: match g.active_brightness { Some(v) => v, None => 128 },
        brightness_dim_timeout_ms: match g.brightness_dim_timeout_ms { Some(v) => v, None => 120000 },
        brightness_off_timeout_ms: match g.brightness_off_timeout_ms { Some(v) => v, None => 300000 },
        dimmed_brightness: match g.dimmed_brightness { Some(v) => v, None => 1 },
        panel_timeout_seconds: match g.panel_timeout_seconds { Some(v) => v, None => 5 },
        icon_theme: text_setting(g.icon_theme, "auto"),
        default_padding: g.default_padding,
        slider_color_source: text_setting(g.slider_color_source, "kde"),
        slider_live_update: match g.slider_live_update { Some(v) => v, None => false },
    }
}

/// The settings of the hardware daemon, which reads no file: full
/// brightness that never dims or switches off, not following the display.
pub fn fallback_globals() -> (r: GlobalSettings)
    ensures
        !r.debug,
        r.show_outline,
        !r.enable_pixel_shift,
        r.font_template@ == "sans-serif"@,
        !r.adaptive_brightness,
        r.active_brightness == 255,
        r.brightness_dim_timeout_ms == u32::MAX,
        r.brightness_off_timeout_ms == u32::MAX,
        r.dimmed_brightness == 1,
        r.panel_timeout_seconds == 5,
        r.icon_theme@ == "auto"@,
        r.default_padding.is_none(),
        r.slider_color_source@ == "kde"@,
        !r.slider_live_update,
{
    GlobalSettings {
        debug: false,
        show_outline: true,
        enable_pixel_shift: false,
        font_template: "sans-serif".to_owned(),
        adaptive_brightness: false,
        active_brightness: 255,
        brightness_dim_timeout_ms: u32::MAX,
        brightness_off_timeout_ms: u32::MAX,
        dimmed_brightness: 1,
        panel_timeout_seconds: 5,
        icon_theme: "auto".to_owned(),
        default_padding: None,
        slider_color_source: "kde".to_owned(),
        slider_live_update: false,
    }
}

} // verus!
