//! The persisted settings: movement style, distance, theme and the start/stop bindings.
use vstd::prelude::*;

verus! {

/// How the cursor moves while the jiggler runs.
#[derive(Clone, Copy, Debug, PartialEq, Eq, Structural)]
pub enum MovementMode {
    Realistic,
    Simple,
}

impl MovementMode {
    /// Every movement mode, in the order the settings page lists them.
    pub const ALL: [MovementMode; 2] = [MovementMode::Realistic, MovementMode::Simple];

    pub open spec fn label_text(self) -> Seq<char> {
        match self {
            MovementMode::Realistic => "Realistic"@,
            MovementMode::Simple => "Simple"@,
        }
    }

    /// The name shown for this mode.
    pub fn label(self) -> (r: &'static str)
        ensures
            r@ == self.label_text(),
    {
        match self {
            MovementMode::Realistic => "Realistic",
            MovementMode::Simple => "Simple",
        }
    }
}

/// How far the cursor travels during a run.
#[derive(Clone, Copy, Debug, PartialEq, Eq, Structural)]
pub enum MovementDistance {
    /// A small oscillation around the starting point.
    Default,
    /// A sweep across the whole virtual desktop.
    EdgeToEdge,
    /// Horizontal bursts of random direction and length.
    Random,
}

impl MovementDistance {
    /// Every distance, in the order the settings page lists them.
    pub const ALL: [MovementDistance; 3] = [
        MovementDistance::Default,
        MovementDistance::EdgeToEdge,
        MovementDistance::Random,
    ];

    pub open spec fn label_text(self) -> Seq<char> {
        match self {
            MovementDistance::Default => "Default"@,
            MovementDistance::EdgeToEdge => "Edge-to-Edge"@,
            MovementDistance::Random => "Random"@,
        }
    }

    /// The name shown for this distance.
    pub fn label(self) -> (r: &'static str)
        ensures
            r@ == self.label_text(),
    {
        match self {
            MovementDistance::Default => "Default",
            MovementDistance::EdgeToEdge => "Edge-to-Edge",
            MovementDistance::Random => "Random",
        }
    }
}

/// The colour theme of the window.
#[derive(Clone, Copy, Debug, PartialEq, Eq, Structural)]
pub enum AppTheme {
    System,
    Light,
    Dark,
    OledBlack,
    GentleGecko,
    BlackKnight,
    Diamond,
    Dreams,
    Paranoid,
    RedVelvet,
    Subspace,
    Tiefling,
    Vibes,
}

impl AppTheme {
    /// Every theme, in the order the settings page lists them.
    pub const ALL: [AppTheme; 13] = [
        AppTheme::System,
        AppTheme::Light,
        AppTheme::Dark,
        AppTheme::OledBlack,
        AppTheme::GentleGecko,
        AppTheme::BlackKnight,
        AppTheme::Diamond,
        AppTheme::Dreams,
        AppTheme::Paranoid,
        AppTheme::RedVelvet,
        AppTheme::Subspace,
        AppTheme::Tiefling,
        AppTheme::Vibes,
    ];

    pub open spec fn label_text(self) -> Seq<char> {
        match self {
            AppTheme::System => "Follow system"@,
            AppTheme::Light => "Light"@,
            AppTheme::Dark => "Dark"@,
            AppTheme::OledBlack => "OLED Black"@,
            AppTheme::GentleGecko => "Gentle Gecko"@,
            AppTheme::BlackKnight => "Black Knight"@,
            AppTheme::Diamond => "Diamond"@,
            AppTheme::Dreams => "Dreams"@,
            AppTheme::Paranoid => "Paranoid"@,
            AppTheme::RedVelvet => "Red Velvet"@,
            AppTheme::Subspace => "Subspace"@,
            AppTheme::Tiefling => "Tiefling"@,
            AppTheme::Vibes => "Vibes"@,
        }
    }

    /// The name shown for this theme.
    pub fn label(self) -> (r: &'static str)
        ensures
            r@ == self.label_text(),
    {
        match self {
            AppTheme::System => "Follow system",
            AppTheme::Light => "Light",
            AppTheme::Dark => "Dark",
            AppTheme::OledBlack => "OLED Black",
            AppTheme::GentleGecko => "Gentle Gecko",
            AppTheme::BlackKnight => "Black Knight",
            AppTheme::Diamond => "Diamond",
            AppTheme::Dreams => "Dreams",
            AppTheme::Paranoid => "Paranoid",
            AppTheme::RedVelvet => "Red Velvet",
            AppTheme::Subspace => "Subspace",
            AppTheme::Tiefling => "Tiefling",
            AppTheme::Vibes => "Vibes",
        }
    }
}

/// Whether a binding is a keyboard key or a mouse button.
#[derive(Clone, Copy, Debug, PartialEq, Eq, Structural)]
pub enum BindingKind {
    Key,
    MouseButton,
}

/// A global key or mouse-button combination that starts or stops the jiggler.
#[derive(Clone, Debug, PartialEq, Eq)]
pub struct Binding {
    pub kind: BindingKind,
    /// Platform-specific identity, e.g. `linux-key:ctrl+30`.
    pub code: String,
    /// Human-readable name, e.g. `Ctrl+A`.
    pub label: String,
}

/// The mathematical value of a [`Binding`].
pub struct BindingView {
    pub kind: BindingKind,
    pub code: Seq<char>,
    pub label: Seq<char>,
}

impl View for Binding {
    type V = BindingView;

    open spec fn view(&self) -> BindingView {
        BindingView { kind: self.kind, code: self.code@, label: self.label@ }
    }
}

/// The part of `s` after its last `+`, or all of `s` when it has none.
pub open spec fn last_segment(s: Seq<char>) -> Seq<char>
    decreases s.len(),
{
    if s.len() == 0 {
        s
    } else if s.last() == '+' {
        Seq::empty()
    } else {
        last_segment(s.drop_last()).push(s.last())
    }
}

impl BindingView {
    /// A mouse-button binding whose final chord part is the left button.
    pub open spec fn is_left_click(self) -> bool {
        self.kind == BindingKind::MouseButton && last_segment(self.label) == "Mouse Left"@
    }
}

impl Binding {
    /// The text shown for this binding.
    pub fn display_label(&self) -> (r: &str)
        ensures
            r@ == self.label@,
    {
        self.label.as_str()
    }

    /// A copy of this binding.
    pub fn duplicate(&self) -> (r: Binding)
        ensures
            r@ == self@,
    {
        Binding { kind: self.kind, code: self.code.clone(), label: self.label.clone() }
    }

    /// Whether two bindings are the same kind, code and label.
    pub fn same_as(&self, other: &Binding) -> (r: bool)
        ensures
            r == (self@ == other@),
    {
        self.kind == other.kind && self.code == other.code && self.label == other.label
    }

    /// Whether this is the left mouse button, alone or as the last part of a chord.
    /// Left click is never accepted as a binding: it would fire on every ordinary click.
    pub fn is_left_click(&self) -> (r: bool)
        ensures
            r == self@.is_left_click(),
    {
        if self.kind != BindingKind::MouseButton {
            return false;
        }
        let label = self.label.as_str();
        let n = label.unicode_len();
        let target = "Mouse Left";
        proof {
            reveal_strlit("Mouse Left");
        }
        // Scan backwards for the last '+'.
        let mut start: usize = n;
        proof {
            assert(label@.take(n as int) =~= label@);
            assert(label@.subrange(n as int, n as int) =~= Seq::<char>::empty());
        }
        while start > 0 && label.get_char(start - 1) != '+'
            invariant
                start <= n,
                n == label@.len(),
                last_segment(label@) == last_segment(label@.take(start as int)) + label@.subrange(start as int, n as int),
            decreases start,
        {
            proof {
                let pre = label@.take(start as int);
                assert(pre.drop_last() == label@.take(start - 1));
                assert(label@.subrange(start - 1, n as int) =~= seq![label@[start - 1]] + label@.subrange(start as int, n as int));
                assert(pre.last() == label@[start - 1]);
                assert(last_segment(pre) == last_segment(pre.drop_last()).push(pre.last()));
                assert(last_segment(pre.drop_last()).push(pre.last()) + label@.subrange(start as int, n as int)
                    =~= last_segment(pre.drop_last()) + label@.subrange(start - 1, n as int));
            }
            start = start - 1;
        }
        proof {
            if start > 0 {
                assert(label@.take(start as int).last() == '+');
            }
            assert(last_segment(label@.take(start as int)) == Seq::<char>::empty()) by {
                if start == 0 {
                    assert(label@.take(0) == Seq::<char>::empty());
                }
            }
            assert(last_segment(label@) == label@.subrange(start as int, n as int));
        }
        if n - start != 10 {
            return false;
        }
        let mut i: usize = 0;
        while i < 10
            invariant
                i <= 10,
                n - start == 10,
                start <= n,
                n == label@.len(),
                target@.len() == 10,
                target@ == "Mouse Left"@,
                self.kind == BindingKind::MouseButton,
                label@ == self.label@,
                last_segment(label@) == label@.subrange(start as int, n as int),
                forall|j: int| 0 <= j < i ==> label@[start + j] == target@[j],
            decreases 10 - i,
        {
            if label.get_char(start + i) != target.get_char(i) {
                proof {
                    assert(label@.subrange(start as int, n as int)[i as int] != target@[i as int]);
                }
                return false;
            }
            i = i + 1;
        }
        proof {
            assert(label@.subrange(start as int, n as int) =~= target@);
        }
        true
    }
}

/// The saved settings.
pub struct AppConfig {
    pub movement_mode: MovementMode,
    pub distance: MovementDistance,
    pub theme: AppTheme,
    pub start_binding: Option<Binding>,
    pub stop_binding: Option<Binding>,
}

/// The mathematical value of an [`AppConfig`].
pub struct AppConfigView {
    pub movement_mode: MovementMode,
    pub distance: MovementDistance,
    pub theme: AppTheme,
    pub start_binding: Option<BindingView>,
    pub stop_binding: Option<BindingView>,
}

pub open spec fn binding_view(b: Option<Binding>) -> Option<BindingView> {
    match b {
        Some(b) => Some(b@),
        None => None,
    }
}

impl View for AppConfig {
    type V = AppConfigView;

    open spec fn view(&self) -> AppConfigView {
        AppConfigView {
            movement_mode: self.movement_mode,
            distance: self.distance,
            theme: self.theme,
            start_binding: binding_view(self.start_binding),
            stop_binding: binding_view(self.stop_binding),
        }
    }
}

/// `b` with a left-click binding removed.
pub open spec fn without_left_click(b: Option<BindingView>) -> Option<BindingView> {
    match b {
        Some(v) => if v.is_left_click() { None } else { Some(v) },
        None => None,
    }
}

fn drop_left_click(b: Option<Binding>) -> (r: Option<Binding>)
    ensures
        binding_view(r) == without_left_click(binding_view(b)),
{
    match b {
        Some(v) => if v.is_left_click() { None } else { Some(v) },
        None => None,
    }
}

fn duplicate_binding(b: &Option<Binding>) -> (r: Option<Binding>)
    ensures
        binding_view(r) == binding_view(*b),
{
    match b {
        Some(v) => Some(v.duplicate()),
        None => None,
    }
}

impl AppConfig {
    /// The settings of a first launch: realistic movement, default distance,
    /// the system theme and no bindings.
    pub fn new() -> (r: AppConfig)
        ensures
            r@ == AppConfig::spec_initial(),
    {
        AppConfig {
            movement_mode: MovementMode::Realistic,
            distance: MovementDistance::Default,
            theme: AppTheme::System,
            start_binding: None,
            stop_binding: None,
        }
    }

    pub open spec fn spec_initial() -> AppConfigView {
        AppConfigView {
            movement_mode: MovementMode::Realistic,
            distance: MovementDistance::Default,
            theme: AppTheme::System,
            start_binding: None,
            stop_binding: None,
        }
    }

    /// A copy of these settings.
    pub fn duplicate(&self) -> (r: AppConfig)
        ensures
            r@ == self@,
    {
        AppConfig {
            movement_mode: self.movement_mode,
            distance: self.distance,
            theme: self.theme,
            start_binding: duplicate_binding(&self.start_binding),
            stop_binding: duplicate_binding(&self.stop_binding),
        }
    }

    /// The settings as loaded from disk: a left-click binding found in the
    /// file is dropped, everything else is kept.
    pub fn without_left_click_bindings(self) -> (r: AppConfig)
        ensures
            r@ == (AppConfigView {
                start_binding: without_left_click(self@.start_binding),
                stop_binding: without_left_click(self@.stop_binding),
                ..self@
            }),
    {
        AppConfig {
            movement_mode: self.movement_mode,
            distance: self.distance,
            theme: self.theme,
            start_binding: drop_left_click(self.start_binding),
            stop_binding: drop_left_click(self.stop_binding),
        }
    }
}

impl Default for AppConfig {
    fn default() -> (r: AppConfig)
        ensures
            r@ == AppConfig::spec_initial(),
    {
        AppConfig::new()
    }
}

} // verus!
