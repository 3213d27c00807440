//! State and decisions of the wp-color-management-v1 protocol.
//!
//! Provides color management capabilities to Wayland clients, allowing them to describe
//! the color space of their surfaces and query output color properties. This module
//! holds what the protocol handlers decide; the Wayland objects, and the sending of
//! the events computed here, live with the compositor.
//!
//! Values carry the protocol's own integer units: chromaticities are CIE xy ×
//! 1,000,000, a power transfer function carries its exponent × 10,000, and the
//! minimum luminance is in 0.0001 cd/m².
use vstd::prelude::*;

use std::collections::HashMap;

verus! {

broadcast use vstd::std_specs::hash::group_hash_axioms;

// --- Wire values of the protocol's enums ---

/// `wp_color_manager_v1.render_intent.perceptual`
pub const RENDER_INTENT_PERCEPTUAL: u32 = 0;

/// `wp_color_manager_v1.render_intent.relative`
pub const RENDER_INTENT_RELATIVE: u32 = 1;

/// `wp_color_manager_v1.feature.icc_v2_v4`
pub const FEATURE_ICC_V2_V4: u32 = 0;

/// `wp_color_manager_v1.feature.parametric`
pub const FEATURE_PARAMETRIC: u32 = 1;

/// `wp_color_manager_v1.feature.set_primaries`
pub const FEATURE_SET_PRIMARIES: u32 = 2;

/// `wp_color_manager_v1.feature.set_tf_power`
pub const FEATURE_SET_TF_POWER: u32 = 3;

/// `wp_color_manager_v1.feature.set_luminances`
pub const FEATURE_SET_LUMINANCES: u32 = 4;

/// `wp_color_manager_v1.primaries.srgb`
pub const PRIMARIES_SRGB: u32 = 1;

/// `wp_color_manager_v1.primaries.bt2020`
pub const PRIMARIES_BT2020: u32 = 6;

/// `wp_color_manager_v1.primaries.display_p3`
pub const PRIMARIES_DISPLAY_P3: u32 = 9;

/// `wp_color_manager_v1.transfer_function.ext_linear`
pub const TF_EXT_LINEAR: u32 = 5;

/// `wp_color_manager_v1.transfer_function.srgb`
pub const TF_SRGB: u32 = 9;

/// `wp_color_manager_v1.transfer_function.st2084_pq`
pub const TF_ST2084_PQ: u32 = 11;

/// `wp_color_manager_v1.transfer_function.hlg`
pub const TF_HLG: u32 = 13;

// --- Image description types ---

/// CIE xy chromaticities of the three primaries and the white point, × 1,000,000.
#[derive(Debug, Clone, Copy, PartialEq, Eq, Structural)]
pub struct Primaries {
    pub r_x: i32,
    pub r_y: i32,
    pub g_x: i32,
    pub g_y: i32,
    pub b_x: i32,
    pub b_y: i32,
    pub w_x: i32,
    pub w_y: i32,
}

#[derive(Debug, Clone, Copy, PartialEq, Eq, Structural)]
pub enum TransferFunction {
    Srgb,
    Linear,
    /// A pure power curve; the exponent × 10,000.
    Gamma(u32),
    Pq,
    Hlg,
}

/// Luminances: `min` in 0.0001 cd/m², `max` and `reference` in cd/m².
#[derive(Debug, Clone, Copy, PartialEq, Eq, Structural)]
pub struct LuminanceRange {
    pub min: u32,
    pub max: u32,
    pub reference: u32,
}

/// Describes a color space / image description.
#[derive(Debug, PartialEq, Eq)]
pub enum ImageDescription {
    Srgb,
    Icc { data: Vec<u8> },
    Parametric {
        primaries: Option<Primaries>,
        tf: Option<TransferFunction>,
        luminance: Option<LuminanceRange>,
    },
}

/// The mathematical value of an [`ImageDescription`].
pub enum DescriptionModel {
    Srgb,
    Icc(Seq<u8>),
    Parametric(Option<Primaries>, Option<TransferFunction>, Option<LuminanceRange>),
}

impl View for ImageDescription {
    type V = DescriptionModel;

    open spec fn view(&self) -> DescriptionModel {
        match self {
            ImageDescription::Srgb => DescriptionModel::Srgb,
            ImageDescription::Icc { data } => DescriptionModel::Icc(data@),
            ImageDescription::Parametric { primaries, tf, luminance } => DescriptionModel::Parametric(
                *primaries,
                *tf,
                *luminance,
            ),
        }
    }
}

/// The model of an optional description.
pub open spec fn option_model(d: Option<ImageDescription>) -> Option<DescriptionModel> {
    match d {
        Some(x) => Some(x@),
        None => None,
    }
}

fn copy_bytes(data: &Vec<u8>) -> (r: Vec<u8>)
    ensures
        r@ == data@,
{
    let mut r: Vec<u8> = Vec::new();
    let n = data.len();
    let mut j: usize = 0;
    while j < n
        invariant
            n == data.len(),
            j <= n,
            r@ == data@.take(j as int),
        decreases n - j,
    {
        r.push(data[j]);
        j += 1;
        assert(r@ =~= data@.take(j as int));
    }
    assert(data@.take(n as int) =~= data@);
    r
}

fn bytes_equal(a: &Vec<u8>, b: &Vec<u8>) -> (r: bool)
    ensures
        r == (a@ == b@),
{
    if a.len() != b.len() {
        return false;
    }
    let n = a.len();
    let mut j: usize = 0;
    while j < n
        invariant
            n == a.len(),
            n == b.len(),
            j <= n,
            forall|i: int| 0 <= i < j ==> a@[i] == b@[i],
        decreases n - j,
    {
        if a[j] != b[j] {
            return false;
        }
        j += 1;
    }
    assert(a@ =~= b@);
    true
}

impl ImageDescription {
    /// A copy of this description.
    pub fn duplicate(&self) -> (r: ImageDescription)
        ensures
            r@ == self@,
    {
        match self {
            ImageDescription::Srgb => ImageDescription::Srgb,
            ImageDescription::Icc { data } => ImageDescription::Icc { data: copy_bytes(data) },
            ImageDescription::Parametric { primaries, tf, luminance } => ImageDescription::Parametric {
                primaries: *primaries,
                tf: *tf,
                luminance: *luminance,
            },
        }
    }

    /// Whether two descriptions describe the same thing.
    pub fn same_as(&self, other: &ImageDescription) -> (r: bool)
        ensures
            r == (self@ == other@),
    {
        match (self, other) {
            (ImageDescription::Srgb, ImageDescription::Srgb) => true,
            (ImageDescription::Icc { data: a }, ImageDescription::Icc { data: b }) => bytes_equal(
                a,
                b,
            ),
            (
                ImageDescription::Parametric { primaries: p1, tf: t1, luminance: l1 },
                ImageDescription::Parametric { primaries: p2, tf: t2, luminance: l2 },
            ) => {
                let same_p = match (p1, p2) {
                    (Some(x), Some(y)) => *x == *y,
                    (None, None) => true,
                    _ => false,
                };
                let same_t = match (t1, t2) {
                    (Some(x), Some(y)) => *x == *y,
                    (None, None) => true,
                    _ => false,
                };
                let same_l = match (l1, l2) {
                    (Some(x), Some(y)) => *x == *y,
                    (None, None) => true,
                    _ => false,
                };
                same_p && same_t && same_l
            },
            _ => false,
        }
    }
}

impl Clone for ImageDescription {
    fn clone(&self) -> (r: Self)
        ensures
            r@ == self@,
    {
        self.duplicate()
    }
}

impl Default for ImageDescription {
    fn default() -> (r: Self)
        ensures
            r@ == DescriptionModel::Srgb,
    {
        ImageDescription::Srgb
    }
}

#[derive(Debug, Clone, Copy, PartialEq, Eq, Structural)]
pub enum RenderIntent {
    Perceptual,
    Relative,
}

impl Default for RenderIntent {
    fn default() -> (r: Self)
        ensures
            r == RenderIntent::Perceptual,
    {
        RenderIntent::Perceptual
    }
}

/// The render intent that the wire value `intent` asks for: relative for
/// `relative`, perceptual for every other value.
pub open spec fn render_intent_spec(intent: u32) -> RenderIntent {
    if intent == RENDER_INTENT_RELATIVE {
        RenderIntent::Relative
    } else {
        RenderIntent::Perceptual
    }
}

pub fn render_intent_from_wire(intent: u32) -> (r: RenderIntent)
    ensures
        r == render_intent_spec(intent),
{
    if intent == RENDER_INTENT_RELATIVE {
        RenderIntent::Relative
    } else {
        RenderIntent::Perceptual
    }
}

/// Per-surface color description.
#[derive(Debug, PartialEq, Eq)]
pub struct SurfaceColorDescription {
    pub description: ImageDescription,
    pub render_intent: RenderIntent,
}

impl Clone for SurfaceColorDescription {
    fn clone(&self) -> (r: Self)
        ensures
            r.description@ == self.description@,
            r.render_intent == self.render_intent,
    {
        SurfaceColorDescription {
            description: self.description.duplicate(),
            render_intent: self.render_intent,
        }
    }
}

impl Default for SurfaceColorDescription {
    /// sRGB with the perceptual intent: what a surface without a description shows.
    fn default() -> (r: Self)
        ensures
            r.description@ == DescriptionModel::Srgb,
            r.render_intent == RenderIntent::Perceptual,
    {
        SurfaceColorDescription {
            description: ImageDescription::Srgb,
            render_intent: RenderIntent::Perceptual,
        }
    }
}

// --- Named primaries ---

/// The chromaticities of the named primaries `code`; unknown and unsupported
/// names give the sRGB primaries.
pub open spec fn named_primaries_spec(code: u32) -> Primaries {
    if code == PRIMARIES_BT2020 {
        Primaries {
            r_x: 708000,
            r_y: 292000,
            g_x: 170000,
            g_y: 797000,
            b_x: 131000,
            b_y: 46000,
            w_x: 312700,
            w_y: 329000,
        }
    } else if code == PRIMARIES_DISPLAY_P3 {
        Primaries {
            r_x: 680000,
            r_y: 320000,
            g_x: 265000,
            g_y: 690000,
            b_x: 150000,
            b_y: 60000,
            w_x: 312700,
            w_y: 329000,
        }
    } else {
        srgb_primaries_spec()
    }
}

/// sRGB primaries: R(0.64,0.33) G(0.30,0.60) B(0.15,0.06) W(0.3127,0.3290).
pub open spec fn srgb_primaries_spec() -> Primaries {
    Primaries {
        r_x: 640000,
        r_y: 330000,
        g_x: 300000,
        g_y: 600000,
        b_x: 150000,
        b_y: 60000,
        w_x: 312700,
        w_y: 329000,
    }
}

pub fn named_primaries(code: u32) -> (r: Primaries)
    ensures
        r == named_primaries_spec(code),
{
    if code == PRIMARIES_BT2020 {
        Primaries {
            r_x: 708000,
            r_y: 292000,
            g_x: 170000,
            g_y: 797000,
            b_x: 131000,
            b_y: 46000,
            w_x: 312700,
            w_y: 329000,
        }
    } else if code == PRIMARIES_DISPLAY_P3 {
        Primaries {
            r_x: 680000,
            r_y: 320000,
            g_x: 265000,
            g_y: 690000,
            b_x: 150000,
            b_y: 60000,
            w_x: 312700,
            w_y: 329000,
        }
    } else {
        Primaries {
            r_x: 640000,
            r_y: 330000,
            g_x: 300000,
            g_y: 600000,
            b_x: 150000,
            b_y: 60000,
            w_x: 312700,
            w_y: 329000,
        }
    }
}

/// The transfer function that the named wire value `code` selects; unknown and
/// unsupported names give sRGB.
pub open spec fn named_transfer_function_spec(code: u32) -> TransferFunction {
    if code == TF_EXT_LINEAR {
        TransferFunction::Linear
    } else if code == TF_ST2084_PQ {
        TransferFunction::Pq
    } else if code == TF_HLG {
        TransferFunction::Hlg
    } else {
        TransferFunction::Srgb
    }
}

pub fn named_transfer_function(code: u32) -> (r: TransferFunction)
    ensures
        r == named_transfer_function_spec(code),
{
    if code == TF_EXT_LINEAR {
        TransferFunction::Linear
    } else if code == TF_ST2084_PQ {
        TransferFunction::Pq
    } else if code == TF_HLG {
        TransferFunction::Hlg
    } else {
        TransferFunction::Srgb
    }
}

// --- Events ---

/// One event of `wp_image_description_info_v1`.
#[derive(Debug, Clone, Copy, PartialEq, Eq, Structural)]
pub enum InfoEvent {
    TfNamed(u32),
    TfPower(u32),
    PrimariesNamed(u32),
    Primaries(Primaries),
    Luminances(LuminanceRange),
    Done,
}

/// The events that describe `desc` to a client, in order, ending with `done`.
pub open spec fn info_events_spec(desc: DescriptionModel) -> Seq<InfoEvent> {
    match desc {
        DescriptionModel::Srgb => seq![
            InfoEvent::TfNamed(TF_SRGB),
            InfoEvent::PrimariesNamed(PRIMARIES_SRGB),
            InfoEvent::Primaries(srgb_primaries_spec()),
            InfoEvent::Luminances(LuminanceRange { min: 0, max: 80, reference: 80 }),
            InfoEvent::Done,
        ],
        // ICC profiles are reported as sRGB.
        DescriptionModel::Icc(_) => seq![
            InfoEvent::TfNamed(TF_SRGB),
            InfoEvent::PrimariesNamed(PRIMARIES_SRGB),
            InfoEvent::Done,
        ],
        DescriptionModel::Parametric(primaries, tf, luminance) => {
            let tf_event = match tf {
                Some(TransferFunction::Linear) => InfoEvent::TfNamed(TF_EXT_LINEAR),
                Some(TransferFunction::Gamma(e)) => InfoEvent::TfPower(e),
                Some(TransferFunction::Pq) => InfoEvent::TfNamed(TF_ST2084_PQ),
                Some(TransferFunction::Hlg) => InfoEvent::TfNamed(TF_HLG),
                _ => InfoEvent::TfNamed(TF_SRGB),
            };
            let p_events = match primaries {
                Some(p) => seq![InfoEvent::Primaries(p)],
                None => Seq::empty(),
            };
            let l_events = match luminance {
                Some(l) => seq![InfoEvent::Luminances(l)],
                None => Seq::empty(),
            };
            seq![tf_event] + p_events + l_events + seq![InfoEvent::Done]
        },
    }
}

/// The `wp_image_description_info_v1` events, ending with `done`, that describe `desc`.
pub fn image_description_info(desc: &ImageDescription) -> (events: Vec<InfoEvent>)
    ensures
        events@ == info_events_spec(desc@),
{
    let mut events: Vec<InfoEvent> = Vec::new();
    match desc {
        ImageDescription::Srgb => {
            events.push(InfoEvent::TfNamed(TF_SRGB));
            events.push(InfoEvent::PrimariesNamed(PRIMARIES_SRGB));
            events.push(InfoEvent::Primaries(named_primaries(PRIMARIES_SRGB)));
            events.push(InfoEvent::Luminances(LuminanceRange { min: 0, max: 80, reference: 80 }));
        },
        ImageDescription::Icc { .. } => {
            // For ICC profiles, report sRGB as a fallback for now.
            events.push(InfoEvent::TfNamed(TF_SRGB));
            events.push(InfoEvent::PrimariesNamed(PRIMARIES_SRGB));
        },
        ImageDescription::Parametric { primaries, tf, luminance } => {
            let tf_event = match tf {
                Some(TransferFunction::Linear) => InfoEvent::TfNamed(TF_EXT_LINEAR),
                Some(TransferFunction::Gamma(e)) => InfoEvent::TfPower(*e),
                Some(TransferFunction::Pq) => InfoEvent::TfNamed(TF_ST2084_PQ),
                Some(TransferFunction::Hlg) => InfoEvent::TfNamed(TF_HLG),
                _ => InfoEvent::TfNamed(TF_SRGB),
            };
            events.push(tf_event);
            if let Some(p) = primaries {
                events.push(InfoEvent::Primaries(*p));
            }
            if let Some(l) = luminance {
                events.push(InfoEvent::Luminances(*l));
            }
        },
    }
    events.push(InfoEvent::Done);
    assert(events@ =~= info_events_spec(desc@));
    events
}

/// One event of `wp_color_manager_v1` sent when a client binds the global.
#[derive(Debug, Clone, Copy, PartialEq, Eq, Structural)]
pub enum ManagerEvent {
    SupportedFeature(u32),
    SupportedIntent(u32),
    SupportedTfNamed(u32),
    SupportedPrimariesNamed(u32),
    Done,
}

/// What the compositor advertises on bind, in order.
pub open spec fn bind_events_spec() -> Seq<ManagerEvent> {
    seq![
        ManagerEvent::SupportedFeature(FEATURE_ICC_V2_V4),
        ManagerEvent::SupportedFeature(FEATURE_PARAMETRIC),
        ManagerEvent::SupportedFeature(FEATURE_SET_PRIMARIES),
        ManagerEvent::SupportedFeature(FEATURE_SET_TF_POWER),
        ManagerEvent::SupportedFeature(FEATURE_SET_LUMINANCES),
        ManagerEvent::SupportedIntent(RENDER_INTENT_PERCEPTUAL),
        ManagerEvent::SupportedIntent(RENDER_INTENT_RELATIVE),
        ManagerEvent::SupportedTfNamed(TF_SRGB),
        ManagerEvent::SupportedTfNamed(TF_EXT_LINEAR),
        ManagerEvent::SupportedTfNamed(TF_ST2084_PQ),
        ManagerEvent::SupportedTfNamed(TF_HLG),
        ManagerEvent::SupportedPrimariesNamed(PRIMARIES_SRGB),
        ManagerEvent::SupportedPrimariesNamed(PRIMARIES_BT2020),
        ManagerEvent::SupportedPrimariesNamed(PRIMARIES_DISPLAY_P3),
        ManagerEvent::Done,
    ]
}

/// The supported features, intents, transfer functions and primaries that a
/// client learns when it binds the manager, followed by `done`.
pub fn bind_events() -> (events: Vec<ManagerEvent>)
    ensures
        events@ == bind_events_spec(),
{
    let mut events: Vec<ManagerEvent> = Vec::new();
    // Supported features.
    events.push(ManagerEvent::SupportedFeature(FEATURE_ICC_V2_V4));
    events.push(ManagerEvent::SupportedFeature(FEATURE_PARAMETRIC));
    events.push(ManagerEvent::SupportedFeature(FEATURE_SET_PRIMARIES));
    events.push(ManagerEvent::SupportedFeature(FEATURE_SET_TF_POWER));
    events.push(ManagerEvent::SupportedFeature(FEATURE_SET_LUMINANCES));
    // Supported intents.
    events.push(ManagerEvent::SupportedIntent(RENDER_INTENT_PERCEPTUAL));
    events.push(ManagerEvent::SupportedIntent(RENDER_INTENT_RELATIVE));
    // Supported transfer functions.
    events.push(ManagerEvent::SupportedTfNamed(TF_SRGB));
    events.push(ManagerEvent::SupportedTfNamed(TF_EXT_LINEAR));
    events.push(ManagerEvent::SupportedTfNamed(TF_ST2084_PQ));
    events.push(ManagerEvent::SupportedTfNamed(TF_HLG));
    // Supported primaries.
    events.push(ManagerEvent::SupportedPrimariesNamed(PRIMARIES_SRGB));
    events.push(ManagerEvent::SupportedPrimariesNamed(PRIMARIES_BT2020));
    events.push(ManagerEvent::SupportedPrimariesNamed(PRIMARIES_DISPLAY_P3));
    // All feature advertisements are done.
    events.push(ManagerEvent::Done);
    assert(events@ =~= bind_events_spec());
    events
}

// --- Per-object data ---

pub struct ColorManagerData;

pub struct ImageDescriptionData {
    pub id: u32,
}

pub struct ImageDescriptionReferenceData {
    pub id: u32,
}

pub struct ImageDescriptionInfoData {
    pub id: u32,
}

/// Builder state for ICC image description creation.
pub struct IccCreatorData;

/// Builder state for parametric image description creation.
pub struct ParametricCreatorData {
    pub tf: Option<TransferFunction>,
    pub primaries: Option<Primaries>,
    pub luminance: Option<LuminanceRange>,
}

impl ParametricCreatorData {
    /// A builder with nothing set.
    pub fn new() -> (r: Self)
        ensures
            r.tf is None,
            r.primaries is None,
            r.luminance is None,
    {
        ParametricCreatorData { tf: None, primaries: None, luminance: None }
    }

    /// `set_tf_named`: unknown and unsupported names select sRGB.
    pub fn set_tf_named(&mut self, tf: u32)
        ensures
            final(self).tf == Some(named_transfer_function_spec(tf)),
            final(self).primaries == old(self).primaries,
            final(self).luminance == old(self).luminance,
    {
        self.tf = Some(named_transfer_function(tf));
    }

    /// `set_tf_power`: a power curve with exponent `eexp` / 10,000.
    pub fn set_tf_power(&mut self, eexp: u32)
        ensures
            final(self).tf == Some(TransferFunction::Gamma(eexp)),
            final(self).primaries == old(self).primaries,
            final(self).luminance == old(self).luminance,
    {
        self.tf = Some(TransferFunction::Gamma(eexp));
    }

    /// `set_primaries_named`: unknown and unsupported names select sRGB.
    pub fn set_primaries_named(&mut self, primaries: u32)
        ensures
            final(self).primaries == Some(named_primaries_spec(primaries)),
            final(self).tf == old(self).tf,
            final(self).luminance == old(self).luminance,
    {
        self.primaries = Some(named_primaries(primaries));
    }

    /// `set_primaries`: chromaticities as CIE xy × 1,000,000.
    pub fn set_primaries(&mut self, primaries: Primaries)
        ensures
            final(self).primaries == Some(primaries),
            final(self).tf == old(self).tf,
            final(self).luminance == old(self).luminance,
    {
        self.primaries = Some(primaries);
    }

    /// `set_luminances`: `min_lum` in 0.0001 cd/m², the others in cd/m².
    pub fn set_luminances(&mut self, min_lum: u32, max_lum: u32, reference_lum: u32)
        ensures
            final(self).luminance == Some(
                LuminanceRange { min: min_lum, max: max_lum, reference: reference_lum },
            ),
            final(self).tf == old(self).tf,
            final(self).primaries == old(self).primaries,
    {
        self.luminance = Some(LuminanceRange { min: min_lum, max: max_lum, reference: reference_lum });
    }

    /// The description that `create` makes from what has been set.
    pub fn description(&self) -> (r: ImageDescription)
        ensures
            r@ == DescriptionModel::Parametric(self.primaries, self.tf, self.luminance),
    {
        ImageDescription::Parametric { primaries: self.primaries, tf: self.tf, luminance: self.luminance }
    }
}

// --- Protocol state ---

/// A surface that asked for feedback, and the preferred description it was last told.
pub struct FeedbackSurfaceEntry {
    pub last_preferred: Option<ImageDescription>,
}

/// The id after `id` by `k` steps of a wrapping 32-bit counter.
pub open spec fn id_after(id: u32, k: nat) -> u32 {
    ((id + k) % 0x1_0000_0000) as u32
}

/// Whether a surface last told `last` must be told `current`.
pub open spec fn preferred_changed(last: Option<DescriptionModel>, current: DescriptionModel) -> bool {
    last != Some(current)
}

/// The positions below `j` whose preferred description changed, in increasing order.
pub open spec fn changed_positions(
    last: Seq<Option<DescriptionModel>>,
    current: Seq<DescriptionModel>,
    j: nat,
) -> Seq<int>
    decreases j,
{
    if j == 0 {
        Seq::empty()
    } else {
        let prev = changed_positions(last, current, (j - 1) as nat);
        if preferred_changed(last[j - 1], current[j - 1]) {
            prev.push(j - 1)
        } else {
            prev
        }
    }
}

/// `m` after registering `current[p]` for each position `p` of `positions`, in
/// order, under consecutive ids from `first`.
pub open spec fn registered(
    m: Map<u32, DescriptionModel>,
    first: u32,
    current: Seq<DescriptionModel>,
    positions: Seq<int>,
) -> Map<u32, DescriptionModel>
    decreases positions.len(),
{
    if positions.len() == 0 {
        m
    } else {
        registered(m, first, current, positions.drop_last()).insert(
            id_after(first, (positions.len() - 1) as nat),
            current[positions.last()],
        )
    }
}

/// The entries kept by `keep`, in order, among the first `j`.
pub open spec fn kept<T>(s: Seq<T>, keep: Seq<bool>, j: nat) -> Seq<T>
    decreases j,
{
    if j == 0 {
        Seq::empty()
    } else {
        let prev = kept(s, keep, (j - 1) as nat);
        if keep[j - 1] {
            prev.push(s[j - 1])
        } else {
            prev
        }
    }
}

/// The counter of image description IDs. A process keeps one and every
/// protocol state draws from it, so IDs are unique across states; it starts at
/// 1 and wraps.
pub struct ImageDescriptionIds {
    next: u32,
}

impl ImageDescriptionIds {
    /// The ID the counter hands out next.
    pub closed spec fn next_spec(&self) -> u32 {
        self.next
    }

    pub fn new() -> (r: Self)
        ensures
            r.next_spec() == 1,
    {
        ImageDescriptionIds { next: 1 }
    }

    /// Hand out the next image description ID; the counter wraps.
    pub fn next_image_desc_id(&mut self) -> (id: u32)
        ensures
            id == old(self).next_spec(),
            final(self).next_spec() == id_after(id, 1),
    {
        let id = self.next;
        self.next = self.next.wrapping_add(1);
        id
    }
}

pub struct ColorManagementState {
    /// Image descriptions keyed by internal ID.
    image_descriptions: HashMap<u32, ImageDescription>,
    /// The sRGB image description ID.
    srgb_id: u32,
    /// Active feedback surfaces for preferred_changed tracking.
    feedback_surfaces: Vec<FeedbackSurfaceEntry>,
}

impl ColorManagementState {
    /// The registered descriptions.
    pub closed spec fn descriptions(&self) -> Map<u32, DescriptionModel> {
        self.image_descriptions@.map_values(|d: ImageDescription| d@)
    }

    pub closed spec fn srgb_id_spec(&self) -> u32 {
        self.srgb_id
    }

    /// What each tracked feedback surface was last told, in order.
    pub closed spec fn feedback(&self) -> Seq<Option<DescriptionModel>> {
        self.feedback_surfaces@.map_values(|e: FeedbackSurfaceEntry| option_model(e.last_preferred))
    }

    /// The sRGB description stays registered: the type's invariant.
    #[verifier::type_invariant]
    pub closed spec fn wf(&self) -> bool {
        self.descriptions().contains_key(self.srgb_id_spec())
    }

    /// The state invariant relative to the ID counter's next value `next`: the
    /// sRGB entry holds sRGB and every registered ID lies below `next`, so the
    /// IDs the counter hands out are fresh. Every operation keeps it as long as
    /// the counter does not wrap; then no registered description is ever
    /// overwritten.
    pub open spec fn well_numbered(&self, next: u32) -> bool {
        &&& self.descriptions().contains_key(self.srgb_id_spec())
        &&& self.descriptions()[self.srgb_id_spec()] == DescriptionModel::Srgb
        &&& forall|k: u32| #[trigger] self.descriptions().contains_key(k) ==> k < next
    }

    /// Create state without registering the Wayland global: the sRGB
    /// description gets the counter's next ID.
    pub fn new_disabled(ids: &mut ImageDescriptionIds) -> (r: Self)
        ensures
            r.srgb_id_spec() == old(ids).next_spec(),
            final(ids).next_spec() == id_after(old(ids).next_spec(), 1),
            r.descriptions() == Map::<u32, DescriptionModel>::empty().insert(
                r.srgb_id_spec(),
                DescriptionModel::Srgb,
            ),
            r.feedback() == Seq::<Option<DescriptionModel>>::empty(),
            old(ids).next_spec() < u32::MAX ==> r.well_numbered(final(ids).next_spec()),
    {
        let srgb_id = ids.next_image_desc_id();
        let mut image_descriptions: HashMap<u32, ImageDescription> = HashMap::new();
        image_descriptions.insert(srgb_id, ImageDescription::Srgb);
        let r = ColorManagementState {
            image_descriptions,
            srgb_id,
            feedback_surfaces: Vec::new(),
        };
        assert(r.descriptions() =~= Map::<u32, DescriptionModel>::empty().insert(
            srgb_id,
            DescriptionModel::Srgb,
        ));
        proof {
            if srgb_id < u32::MAX {
                vstd::arithmetic::div_mod::lemma_small_mod((srgb_id + 1) as nat, 0x1_0000_0000);
            }
        }
        assert(r.feedback() =~= Seq::<Option<DescriptionModel>>::empty());
        r
    }

    /// The sRGB image description ID.
    pub fn srgb_id(&self) -> (r: u32)
        ensures
            r == self.srgb_id_spec(),
    {
        self.srgb_id
    }

    /// Register `desc` under the counter's next ID and return that ID. Unless the
    /// counter wraps, that ID is fresh and every description registered before
    /// keeps its ID and value.
    pub fn register_description(&mut self, desc: ImageDescription, ids: &mut ImageDescriptionIds) -> (id: u32)
        ensures
            id == old(ids).next_spec(),
            final(ids).next_spec() == id_after(id, 1),
            final(self).descriptions() == old(self).descriptions().insert(id, desc@),
            final(self).srgb_id_spec() == old(self).srgb_id_spec(),
            final(self).feedback() == old(self).feedback(),
            old(self).well_numbered(old(ids).next_spec()) && old(ids).next_spec() < u32::MAX ==> {
                &&& !old(self).descriptions().contains_key(id)
                &&& final(self).well_numbered(final(ids).next_spec())
                &&& forall|k: u32| #[trigger]
                    old(self).descriptions().contains_key(k) ==> final(self).descriptions().contains_key(k)
                        && final(self).descriptions()[k] == old(self).descriptions()[k]
            },
    {
        proof {
            use_type_invariant(&*self);
        }
        let ghost model = desc@;
        let id = ids.next_image_desc_id();
        let ghost before = self.image_descriptions@;
        // Take the map out, leaving one that still holds the sRGB entry.
        let mut map: HashMap<u32, ImageDescription> = HashMap::new();
        map.insert(self.srgb_id, ImageDescription::Srgb);
        std::mem::swap(&mut map, &mut self.image_descriptions);
        map.insert(id, desc);
        std::mem::swap(&mut map, &mut self.image_descriptions);
        proof {
            assert(self.descriptions() =~= before.map_values(|d: ImageDescription| d@).insert(
                id,
                model,
            ));
            if id < u32::MAX {
                vstd::arithmetic::div_mod::lemma_small_mod((id + 1) as nat, 0x1_0000_0000);
            }
        }
        id
    }

    /// The ID that `create` on an ICC creator and `create_windows_scrgb` answer
    /// with: the registered sRGB description, registering nothing (ICC data and
    /// scRGB are not processed yet).
    pub fn fallback_description_id(&self) -> (r: u32)
        ensures
            r == self.srgb_id_spec(),
            self.descriptions().contains_key(r),
    {
        proof {
            use_type_invariant(self);
        }
        self.srgb_id
    }

    /// The description registered under `id`, or sRGB when there is none.
    pub fn description_or_default(&self, id: u32) -> (r: ImageDescription)
        ensures
            r@ == (if self.descriptions().contains_key(id) {
                self.descriptions()[id]
            } else {
                DescriptionModel::Srgb
            }),
    {
        match self.image_descriptions.get(&id) {
            Some(d) => d.duplicate(),
            None => ImageDescription::Srgb,
        }
    }

    /// What a surface shows after `set_image_description` with the description
    /// registered under `id` and the wire render intent `render_intent`.
    pub fn surface_description(&self, id: u32, render_intent: u32) -> (r: SurfaceColorDescription)
        ensures
            r.description@ == (if self.descriptions().contains_key(id) {
                self.descriptions()[id]
            } else {
                DescriptionModel::Srgb
            }),
            r.render_intent == render_intent_spec(render_intent),
    {
        SurfaceColorDescription {
            description: self.description_or_default(id),
            render_intent: render_intent_from_wire(render_intent),
        }
    }

    /// The number of tracked feedback surfaces.
    pub fn feedback_surface_count(&self) -> (r: usize)
        ensures
            r == self.feedback().len(),
    {
        self.feedback_surfaces.len()
    }

    /// Start tracking a surface that asked for feedback; it has been told nothing yet.
    pub fn add_feedback_surface(&mut self)
        ensures
            final(self).feedback() == old(self).feedback().push(None),
            final(self).descriptions() == old(self).descriptions(),
            final(self).srgb_id_spec() == old(self).srgb_id_spec(),
    {
        proof {
            use_type_invariant(&*self);
        }
        let mut entries: Vec<FeedbackSurfaceEntry> = Vec::new();
        std::mem::swap(&mut entries, &mut self.feedback_surfaces);
        entries.push(FeedbackSurfaceEntry { last_preferred: None });
        self.feedback_surfaces = entries;
        assert(self.feedback() =~= old(self).feedback().push(None));
    }

    /// Keep the tracked surfaces whose `keep` flag is set (those whose resources
    /// are still alive, or all but a destroyed one), in order.
    pub fn retain_feedback_surfaces(&mut self, keep: &Vec<bool>)
        requires
            keep.len() == old(self).feedback().len(),
        ensures
            final(self).feedback() == kept(old(self).feedback(), keep@, keep@.len()),
            final(self).descriptions() == old(self).descriptions(),
            final(self).srgb_id_spec() == old(self).srgb_id_spec(),
    {
        proof {
            use_type_invariant(&*self);
        }
        let ghost old_feedback = self.feedback();
        let n = keep.len();
        let mut result: Vec<FeedbackSurfaceEntry> = Vec::new();
        let mut j: usize = 0;
        while j < n
            invariant
                n == keep.len(),
                n == self.feedback_surfaces.len(),
                old_feedback == self.feedback(),
                j <= n,
                result@.map_values(|e: FeedbackSurfaceEntry| option_model(e.last_preferred))
                    == kept(old_feedback, keep@, j as nat),
            decreases n - j,
        {
            if keep[j] {
                let entry = match &self.feedback_surfaces[j].last_preferred {
                    Some(d) => FeedbackSurfaceEntry { last_preferred: Some(d.duplicate()) },
                    None => FeedbackSurfaceEntry { last_preferred: None },
                };
                proof {
                    assert(option_model(entry.last_preferred) == old_feedback[j as int]);
                }
                let ghost prev = result@;
                result.push(entry);
                proof {
                    assert(result@.map_values(|e: FeedbackSurfaceEntry| option_model(e.last_preferred))
                        =~= prev.map_values(|e: FeedbackSurfaceEntry| option_model(e.last_preferred)).push(
                        old_feedback[j as int],
                    ));
                }
            }
            j += 1;
        }
        self.feedback_surfaces = result;
    }

    /// Record `current[i]` as the preferred description of tracked surface `i`.
    /// Each surface whose preferred description changed (or that was never told
    /// one) gets it registered under a fresh ID; the result lists those surfaces'
    /// positions with their new IDs, for sending `preferred_changed`.
    /// Unless the counter wraps, the new IDs are fresh and every description
    /// registered before keeps its ID and value.
    pub fn notify_preferred_changed(
        &mut self,
        current: Vec<ImageDescription>,
        ids: &mut ImageDescriptionIds,
    ) -> (events: Vec<(usize, u32)>)
        requires
            current.len() == old(self).feedback().len(),
        ensures
            ({
                let models = current@.map_values(|d: ImageDescription| d@);
                let positions = changed_positions(old(self).feedback(), models, models.len());
                &&& final(self).feedback() == models.map_values(|d: DescriptionModel| Some(d))
                &&& events.len() == positions.len()
                &&& forall|k: int|
                    0 <= k < events.len() ==> (#[trigger] events[k]).0 == positions[k]
                        && events[k].1 == id_after(old(ids).next_spec(), k as nat)
                &&& final(ids).next_spec() == id_after(old(ids).next_spec(), positions.len())
                &&& final(self).descriptions() == registered(
                    old(self).descriptions(),
                    old(ids).next_spec(),
                    models,
                    positions,
                )
                &&& old(self).well_numbered(old(ids).next_spec()) && old(ids).next_spec()
                    + positions.len() <= u32::MAX ==> {
                    &&& final(self).well_numbered(final(ids).next_spec())
                    &&& forall|k: u32| #[trigger]
                        old(self).descriptions().contains_key(k) ==> final(self).descriptions().contains_key(k)
                            && final(self).descriptions()[k] == old(self).descriptions()[k]
                    &&& forall|k: int|
                        0 <= k < events.len() ==> !old(self).descriptions().contains_key(
                            (#[trigger] events[k]).1,
                        )
                }
            }),
            final(self).srgb_id_spec() == old(self).srgb_id_spec(),
    {
        proof {
            use_type_invariant(&*self);
        }
        let ghost models = current@.map_values(|d: ImageDescription| d@);
        let ghost old_feedback = self.feedback();
        let ghost first = ids.next;
        let ghost old_descriptions = self.descriptions();
        let n = current.len();
        let mut events: Vec<(usize, u32)> = Vec::new();
        let mut j: usize = 0;
        while j < n
            invariant
                n == current.len(),
                n == self.feedback_surfaces.len(),
                models == current@.map_values(|d: ImageDescription| d@),
                j <= n,
                self.wf(),
                self.srgb_id == old(self).srgb_id,
                forall|i: int| j <= i < n ==> #[trigger] self.feedback()[i] == old_feedback[i],
                forall|i: int| 0 <= i < j ==> #[trigger] self.feedback()[i] == Some(models[i]),
                ({
                    let positions = changed_positions(old_feedback, models, j as nat);
                    &&& events.len() == positions.len()
                    &&& forall|k: int|
                        0 <= k < events.len() ==> (#[trigger] events[k]).0 == positions[k]
                            && events[k].1 == id_after(first, k as nat)
                    &&& ids.next == id_after(first, positions.len())
                    &&& self.descriptions() == registered(old_descriptions, first, models, positions)
                }),
            decreases n - j,
        {
            let desc = &current[j];
            let changed = match &self.feedback_surfaces[j].last_preferred {
                Some(prev) => !prev.same_as(desc),
                None => true,
            };
            let ghost positions = changed_positions(old_feedback, models, j as nat);
            proof {
                assert(self.feedback()[j as int] == old_feedback[j as int]);
                assert(changed == preferred_changed(old_feedback[j as int], models[j as int]));
            }
            if changed {
                let ghost before_feedback = self.feedback();
                self.feedback_surfaces[j] = FeedbackSurfaceEntry { last_preferred: Some(desc.duplicate()) };
                let id = self.register_description(desc.duplicate(), ids);
                events.push((j, id));
                proof {
                    use_type_invariant(&*self);
                    let new_positions = positions.push(j as int);
                    assert(changed_positions(old_feedback, models, (j + 1) as nat) == new_positions);
                    assert(new_positions.drop_last() =~= positions);
                    assert(id == id_after(first, positions.len()));
                    assert(ids.next == id_after(first, new_positions.len())) by {
                        assert(((first + positions.len()) % 0x1_0000_0000 + 1) % 0x1_0000_0000
                            == (first + positions.len() + 1) % 0x1_0000_0000);
                    }
                    assert(self.feedback() =~= before_feedback.update(j as int, Some(models[j as int])));
                }
            } else {
                proof {
                    assert(changed_positions(old_feedback, models, (j + 1) as nat) == positions);
                }
            }
            j += 1;
        }
        proof {
            assert(self.feedback() =~= models.map_values(|d: DescriptionModel| Some(d)));
            let positions = changed_positions(old_feedback, models, models.len());
            if old(self).well_numbered(first) && first + positions.len() <= u32::MAX {
                lemma_registered_fresh(old_descriptions, first, models, positions);
                vstd::arithmetic::div_mod::lemma_small_mod(
                    (first + positions.len()) as nat,
                    0x1_0000_0000,
                );
                assert(old_descriptions.contains_key(self.srgb_id));
            }
        }
        events
    }
}

/// After a notification, each surface has been told its current preferred
/// description, so notifying again with the same descriptions reports no surface.
pub proof fn lemma_notify_again_reports_nothing(current: Seq<DescriptionModel>)
    ensures
        changed_positions(
            current.map_values(|d: DescriptionModel| Some(d)),
            current,
            current.len(),
        ).len() == 0,
{
    lemma_no_change_positions(current, current.len());
}

proof fn lemma_no_change_positions(current: Seq<DescriptionModel>, j: nat)
    requires
        j <= current.len(),
    ensures
        changed_positions(current.map_values(|d: DescriptionModel| Some(d)), current, j).len() == 0,
    decreases j,
{
    if j > 0 {
        lemma_no_change_positions(current, (j - 1) as nat);
        let last = current.map_values(|d: DescriptionModel| Some(d));
        assert(last[j - 1] == Some(current[j - 1]));
    }
}

/// A description registered under an ID is what a lookup of that ID gives back.
pub proof fn lemma_registered_description_reads_back(
    m: Map<u32, DescriptionModel>,
    id: u32,
    d: DescriptionModel,
)
    ensures
        m.insert(id, d).contains_key(id),
        m.insert(id, d)[id] == d,
{
}

/// Every ID handed out by one notification resolves to the description it
/// announced (the IDs of one notification are distinct).
pub proof fn lemma_notified_ids_resolve(
    m: Map<u32, DescriptionModel>,
    first: u32,
    current: Seq<DescriptionModel>,
    positions: Seq<int>,
    k: int,
)
    requires
        0 <= k < positions.len(),
        positions.len() <= 0x1_0000_0000,
    ensures
        registered(m, first, current, positions).contains_key(id_after(first, k as nat)),
        registered(m, first, current, positions)[id_after(first, k as nat)] == current[positions[k]],
    decreases positions.len(),
{
    let l = (positions.len() - 1) as nat;
    if k < l {
        lemma_notified_ids_resolve(m, first, current, positions.drop_last(), k);
        assert(id_after(first, k as nat) != id_after(first, l)) by {
            let a = first + k;
            let b = first + l;
            assert(0 < b - a < 0x1_0000_0000);
            if a % 0x1_0000_0000 == b % 0x1_0000_0000 {
                vstd::arithmetic::div_mod::lemma_fundamental_div_mod(a as int, 0x1_0000_0000);
                vstd::arithmetic::div_mod::lemma_fundamental_div_mod(b as int, 0x1_0000_0000);
                let qa = a / 0x1_0000_0000;
                let qb = b / 0x1_0000_0000;
                assert((qb - qa) * 0x1_0000_0000 == b - a) by (nonlinear_arith)
                    requires
                        a == 0x1_0000_0000 * qa + a % 0x1_0000_0000,
                        b == 0x1_0000_0000 * qb + b % 0x1_0000_0000,
                        a % 0x1_0000_0000 == b % 0x1_0000_0000,
                ;
                assert(false) by (nonlinear_arith)
                    requires
                        (qb - qa) * 0x1_0000_0000 == b - a,
                        0 < b - a < 0x1_0000_0000,
                ;
            }
        }
    }
}

/// Retaining with every flag set keeps every tracked surface.
pub proof fn lemma_keep_all<T>(s: Seq<T>, keep: Seq<bool>, j: nat)
    requires
        j <= s.len(),
        j <= keep.len(),
        forall|i: int| 0 <= i < j ==> keep[i],
    ensures
        kept(s, keep, j) == s.take(j as int),
    decreases j,
{
    if j > 0 {
        lemma_keep_all(s, keep, (j - 1) as nat);
        assert(s.take(j as int) =~= s.take(j - 1).push(s[j - 1]));
    } else {
        assert(s.take(0) =~= Seq::<T>::empty());
    }
}

/// The info event that reports a transfer function.
pub open spec fn tf_info_event(tf: Option<TransferFunction>) -> InfoEvent {
    info_events_spec(DescriptionModel::Parametric(None, tf, None))[0]
}

/// What a client sets on a parametric creator is what the created description
/// reports: a power curve's exponent, the primaries and the luminances come back
/// unchanged, and each supported named transfer function comes back by name.
pub proof fn lemma_parametric_reports_what_was_set(
    p: Primaries,
    eexp: u32,
    l: LuminanceRange,
    named: u32,
)
    ensures
        info_events_spec(
            DescriptionModel::Parametric(Some(p), Some(TransferFunction::Gamma(eexp)), Some(l)),
        ) == seq![
            InfoEvent::TfPower(eexp),
            InfoEvent::Primaries(p),
            InfoEvent::Luminances(l),
            InfoEvent::Done,
        ],
        (named == TF_SRGB || named == TF_EXT_LINEAR || named == TF_ST2084_PQ || named == TF_HLG)
            ==> tf_info_event(Some(named_transfer_function_spec(named))) == InfoEvent::TfNamed(
            named,
        ),
{
    assert(info_events_spec(
        DescriptionModel::Parametric(Some(p), Some(TransferFunction::Gamma(eexp)), Some(l)),
    ) =~= seq![
        InfoEvent::TfPower(eexp),
        InfoEvent::Primaries(p),
        InfoEvent::Luminances(l),
        InfoEvent::Done,
    ]);
}

/// Registering under IDs from `first` on, none of which wraps past `u32::MAX`,
/// into a map whose keys all lie below `first` keeps every entry, uses only IDs
/// below `first + positions.len()`, and uses no ID already present.
pub proof fn lemma_registered_fresh(
    m: Map<u32, DescriptionModel>,
    first: u32,
    current: Seq<DescriptionModel>,
    positions: Seq<int>,
)
    requires
        forall|k: u32| #[trigger] m.contains_key(k) ==> k < first,
        first + positions.len() <= u32::MAX,
    ensures
        forall|k: u32| #[trigger]
            m.contains_key(k) ==> registered(m, first, current, positions).contains_key(k)
                && registered(m, first, current, positions)[k] == m[k],
        forall|k: u32| #[trigger]
            registered(m, first, current, positions).contains_key(k) ==> k < first + positions.len(),
        forall|i: int| 0 <= i < positions.len() ==> !m.contains_key(#[trigger] id_after(first, i as nat)),
    decreases positions.len(),
{
    if positions.len() > 0 {
        let l = positions.len() - 1;
        lemma_registered_fresh(m, first, current, positions.drop_last());
        vstd::arithmetic::div_mod::lemma_small_mod((first + l) as nat, 0x1_0000_0000);
        assert(id_after(first, l as nat) == first + l);
        let prev = registered(m, first, current, positions.drop_last());
        assert(registered(m, first, current, positions) == prev.insert(
            id_after(first, l as nat),
            current[positions.last()],
        ));
        assert forall|k: u32| #[trigger]
            registered(m, first, current, positions).contains_key(k) implies k < first
            + positions.len() by {
            if k != id_after(first, l as nat) {
                assert(prev.contains_key(k));
            }
        }
    }
    assert forall|i: int| 0 <= i < positions.len() implies !m.contains_key(
        #[trigger] id_after(first, i as nat),
    ) by {
        vstd::arithmetic::div_mod::lemma_small_mod((first + i) as nat, 0x1_0000_0000);
    }
}

/// The advertised events, position by position.
proof fn lemma_bind_events_elements()
    ensures
        bind_events_spec().len() == 15,
        bind_events_spec()[0] == ManagerEvent::SupportedFeature(FEATURE_ICC_V2_V4),
        bind_events_spec()[1] == ManagerEvent::SupportedFeature(FEATURE_PARAMETRIC),
        bind_events_spec()[2] == ManagerEvent::SupportedFeature(FEATURE_SET_PRIMARIES),
        bind_events_spec()[3] == ManagerEvent::SupportedFeature(FEATURE_SET_TF_POWER),
        bind_events_spec()[4] == ManagerEvent::SupportedFeature(FEATURE_SET_LUMINANCES),
        bind_events_spec()[5] == ManagerEvent::SupportedIntent(RENDER_INTENT_PERCEPTUAL),
        bind_events_spec()[6] == ManagerEvent::SupportedIntent(RENDER_INTENT_RELATIVE),
        bind_events_spec()[7] == ManagerEvent::SupportedTfNamed(TF_SRGB),
        bind_events_spec()[8] == ManagerEvent::SupportedTfNamed(TF_EXT_LINEAR),
        bind_events_spec()[9] == ManagerEvent::SupportedTfNamed(TF_ST2084_PQ),
        bind_events_spec()[10] == ManagerEvent::SupportedTfNamed(TF_HLG),
        bind_events_spec()[11] == ManagerEvent::SupportedPrimariesNamed(PRIMARIES_SRGB),
        bind_events_spec()[12] == ManagerEvent::SupportedPrimariesNamed(PRIMARIES_BT2020),
        bind_events_spec()[13] == ManagerEvent::SupportedPrimariesNamed(PRIMARIES_DISPLAY_P3),
        bind_events_spec()[14] == ManagerEvent::Done,
{
    let s = bind_events_spec();
    assert(s[0] == ManagerEvent::SupportedFeature(FEATURE_ICC_V2_V4));
    assert(s[1] == ManagerEvent::SupportedFeature(FEATURE_PARAMETRIC));
    assert(s[2] == ManagerEvent::SupportedFeature(FEATURE_SET_PRIMARIES));
    assert(s[3] == ManagerEvent::SupportedFeature(FEATURE_SET_TF_POWER));
    assert(s[4] == ManagerEvent::SupportedFeature(FEATURE_SET_LUMINANCES));
    assert(s[5] == ManagerEvent::SupportedIntent(RENDER_INTENT_PERCEPTUAL));
    assert(s[6] == ManagerEvent::SupportedIntent(RENDER_INTENT_RELATIVE));
    assert(s[7] == ManagerEvent::SupportedTfNamed(TF_SRGB));
    assert(s[8] == ManagerEvent::SupportedTfNamed(TF_EXT_LINEAR));
    assert(s[9] == ManagerEvent::SupportedTfNamed(TF_ST2084_PQ));
    assert(s[10] == ManagerEvent::SupportedTfNamed(TF_HLG));
    assert(s[11] == ManagerEvent::SupportedPrimariesNamed(PRIMARIES_SRGB));
    assert(s[12] == ManagerEvent::SupportedPrimariesNamed(PRIMARIES_BT2020));
    assert(s[13] == ManagerEvent::SupportedPrimariesNamed(PRIMARIES_DISPLAY_P3));
    assert(s[14] == ManagerEvent::Done);
}

/// On bind the compositor advertises exactly what its request handlers support:
/// the transfer function names that `set_tf_named` maps to a function of their
/// own (sRGB, extended linear, ST 2084 PQ and HLG), the primaries names that
/// `set_primaries_named` maps to primaries of their own (sRGB, BT.2020 and
/// Display P3), the features icc_v2_v4, parametric, set_primaries,
/// set_tf_power and set_luminances, and the perceptual and relative intents;
/// the last event is `done`.
pub proof fn lemma_bind_advertises_what_is_supported()
    ensures
        forall|c: u32|
            bind_events_spec().contains(ManagerEvent::SupportedTfNamed(c)) <==> (c == TF_SRGB
                || named_transfer_function_spec(c) != TransferFunction::Srgb),
        forall|c: u32|
            bind_events_spec().contains(ManagerEvent::SupportedTfNamed(c)) <==> (c == 9 || c == 5
                || c == 11 || c == 13),
        forall|c: u32|
            bind_events_spec().contains(ManagerEvent::SupportedPrimariesNamed(c)) <==> (c
                == PRIMARIES_SRGB || named_primaries_spec(c) != srgb_primaries_spec()),
        forall|c: u32|
            bind_events_spec().contains(ManagerEvent::SupportedPrimariesNamed(c)) <==> (c == 1
                || c == 6 || c == 9),
        forall|c: u32| bind_events_spec().contains(ManagerEvent::SupportedFeature(c)) <==> c <= 4,
        forall|c: u32|
            bind_events_spec().contains(ManagerEvent::SupportedIntent(c)) <==> (c == 0 || c == 1),
        bind_events_spec().last() == ManagerEvent::Done,
{
    lemma_bind_events_elements();
    let s = bind_events_spec();
    assert forall|e: ManagerEvent| s.contains(e) implies ({
        ||| e == ManagerEvent::SupportedFeature(0)
        ||| e == ManagerEvent::SupportedFeature(1)
        ||| e == ManagerEvent::SupportedFeature(2)
        ||| e == ManagerEvent::SupportedFeature(3)
        ||| e == ManagerEvent::SupportedFeature(4)
        ||| e == ManagerEvent::SupportedIntent(0)
        ||| e == ManagerEvent::SupportedIntent(1)
        ||| e == ManagerEvent::SupportedTfNamed(9)
        ||| e == ManagerEvent::SupportedTfNamed(5)
        ||| e == ManagerEvent::SupportedTfNamed(11)
        ||| e == ManagerEvent::SupportedTfNamed(13)
        ||| e == ManagerEvent::SupportedPrimariesNamed(1)
        ||| e == ManagerEvent::SupportedPrimariesNamed(6)
        ||| e == ManagerEvent::SupportedPrimariesNamed(9)
        ||| e == ManagerEvent::Done
    }) by {
        let i = choose|i: int| 0 <= i < s.len() && s[i] == e;
        if i == 0 {
        } else if i == 1 {
        } else if i == 2 {
        } else if i == 3 {
        } else if i == 4 {
        } else if i == 5 {
        } else if i == 6 {
        } else if i == 7 {
        } else if i == 8 {
        } else if i == 9 {
        } else if i == 10 {
        } else if i == 11 {
        } else if i == 12 {
        } else if i == 13 {
        } else if i == 14 {
        }
    }
    assert forall|c: u32| (c == 9 || c == 5 || c == 11 || c == 13) implies s.contains(
        ManagerEvent::SupportedTfNamed(c),
    ) by {
        if c == 9 {
            assert(s[7] == ManagerEvent::SupportedTfNamed(c));
        } else if c == 5 {
            assert(s[8] == ManagerEvent::SupportedTfNamed(c));
        } else if c == 11 {
            assert(s[9] == ManagerEvent::SupportedTfNamed(c));
        } else {
            assert(s[10] == ManagerEvent::SupportedTfNamed(c));
        }
    }
    assert forall|c: u32| (c == 1 || c == 6 || c == 9) implies s.contains(
        ManagerEvent::SupportedPrimariesNamed(c),
    ) by {
        if c == 1 {
            assert(s[11] == ManagerEvent::SupportedPrimariesNamed(c));
        } else if c == 6 {
            assert(s[12] == ManagerEvent::SupportedPrimariesNamed(c));
        } else {
            assert(s[13] == ManagerEvent::SupportedPrimariesNamed(c));
        }
    }
    assert forall|c: u32| c <= 4 implies s.contains(ManagerEvent::SupportedFeature(c)) by {
        assert(s[c as int] == ManagerEvent::SupportedFeature(c));
    }
    assert forall|c: u32| (c == 0 || c == 1) implies s.contains(ManagerEvent::SupportedIntent(c)) by {
        assert(s[5 + c] == ManagerEvent::SupportedIntent(c));
    }
}

/// A feedback surface is reported, and its description registered, exactly
/// when what it was last told differs as a whole from its current preferred
/// description; the reported positions come in increasing order.
pub proof fn lemma_reported_exactly_when_changed(
    last: Seq<Option<DescriptionModel>>,
    current: Seq<DescriptionModel>,
    n: nat,
)
    requires
        n <= last.len(),
        n <= current.len(),
    ensures
        forall|i: int|
            #[trigger] changed_positions(last, current, n).contains(i) <==> (0 <= i < n && last[i]
                != Some(current[i])),
        forall|a: int, b: int|
            0 <= a < b < changed_positions(last, current, n).len() ==> changed_positions(
                last,
                current,
                n,
            )[a] < changed_positions(last, current, n)[b],
    decreases n,
{
    if n > 0 {
        lemma_reported_exactly_when_changed(last, current, (n - 1) as nat);
        let prev = changed_positions(last, current, (n - 1) as nat);
        let k = n - 1;
        if last[k] != Some(current[k]) {
            let cur = prev.push(k);
            assert(changed_positions(last, current, n) == cur);
            assert forall|i: int| cur.contains(i) <==> (0 <= i < n && last[i] != Some(current[i])) by {
                if cur.contains(i) {
                    let w = choose|w: int| 0 <= w < cur.len() && cur[w] == i;
                    if w < prev.len() {
                        assert(prev.contains(i));
                    }
                }
                if 0 <= i < n && last[i] != Some(current[i]) {
                    if i == k {
                        assert(cur[prev.len() as int] == i);
                    } else {
                        assert(prev.contains(i));
                        let w = choose|w: int| 0 <= w < prev.len() && prev[w] == i;
                        assert(cur[w] == i);
                    }
                }
            }
            assert forall|a: int, b: int| 0 <= a < b < cur.len() implies cur[a] < cur[b] by {
                assert(cur[a] == prev[a]);
                if b == prev.len() {
                    assert(cur[b] == k);
                    assert(prev.contains(prev[a]));
                    assert(prev[a] < k);
                } else {
                    assert(cur[b] == prev[b]);
                    assert(prev[a] < prev[b]);
                }
            }
        } else {
            assert(changed_positions(last, current, n) == prev);
        }
    }
}

/// The events that describe a parametric description: first its transfer
/// function (by name for sRGB, or when none is set, extended linear, ST 2084 PQ
/// and HLG; by exponent for a power curve), then its primaries if it has them,
/// then its luminances if it has them, whatever its transfer function, then
/// `done`.
pub proof fn lemma_parametric_info_events(
    p: Option<Primaries>,
    tf: Option<TransferFunction>,
    l: Option<LuminanceRange>,
)
    ensures
        ({
            let ev = info_events_spec(DescriptionModel::Parametric(p, tf, l));
            let np: int = if p is Some {
                1
            } else {
                0
            };
            let nl: int = if l is Some {
                1
            } else {
                0
            };
            &&& ev.len() == 2 + np + nl
            &&& ev[0] == (match tf {
                Some(TransferFunction::Linear) => InfoEvent::TfNamed(5),
                Some(TransferFunction::Pq) => InfoEvent::TfNamed(11),
                Some(TransferFunction::Hlg) => InfoEvent::TfNamed(13),
                Some(TransferFunction::Gamma(e)) => InfoEvent::TfPower(e),
                Some(TransferFunction::Srgb) => InfoEvent::TfNamed(9),
                None => InfoEvent::TfNamed(9),
            })
            &&& (p matches Some(x) ==> ev[1] == InfoEvent::Primaries(x))
            &&& (l matches Some(x) ==> ev[1 + np] == InfoEvent::Luminances(x))
            &&& ev[ev.len() - 1] == InfoEvent::Done
        }),
{
}

/// sRGB is described as the sRGB transfer function and primaries, the sRGB
/// chromaticities R(0.64, 0.33) G(0.30, 0.60) B(0.15, 0.06) W(0.3127, 0.3290)
/// and luminances 0 / 80 / 80 cd/m²; an ICC description is reported as sRGB
/// by name only.
pub proof fn lemma_fixed_info_events(data: Seq<u8>)
    ensures
        info_events_spec(DescriptionModel::Srgb) == seq![
            InfoEvent::TfNamed(9),
            InfoEvent::PrimariesNamed(1),
            InfoEvent::Primaries(
                Primaries {
                    r_x: 640000,
                    r_y: 330000,
                    g_x: 300000,
                    g_y: 600000,
                    b_x: 150000,
                    b_y: 60000,
                    w_x: 312700,
                    w_y: 329000,
                },
            ),
            InfoEvent::Luminances(LuminanceRange { min: 0, max: 80, reference: 80 }),
            InfoEvent::Done,
        ],
        info_events_spec(DescriptionModel::Icc(data)) == seq![
            InfoEvent::TfNamed(9),
            InfoEvent::PrimariesNamed(1),
            InfoEvent::Done,
        ],
{
}

/// The named values a client may ask for: extended linear (5), ST 2084 PQ (11)
/// and HLG (13) select their own transfer functions and every other name sRGB;
/// BT.2020 (6) and Display P3 (9) select their own primaries and every other
/// name the sRGB primaries; only the wire value 1 selects the relative intent.
pub proof fn lemma_named_values(c: u32)
    ensures
        named_transfer_function_spec(c) == (if c == 5 {
            TransferFunction::Linear
        } else if c == 11 {
            TransferFunction::Pq
        } else if c == 13 {
            TransferFunction::Hlg
        } else {
            TransferFunction::Srgb
        }),
        c == 6 ==> named_primaries_spec(c) == (Primaries {
            r_x: 708000,
            r_y: 292000,
            g_x: 170000,
            g_y: 797000,
            b_x: 131000,
            b_y: 46000,
            w_x: 312700,
            w_y: 329000,
        }),
        c == 9 ==> named_primaries_spec(c) == (Primaries {
            r_x: 680000,
            r_y: 320000,
            g_x: 265000,
            g_y: 690000,
            b_x: 150000,
            b_y: 60000,
            w_x: 312700,
            w_y: 329000,
        }),
        c != 6 && c != 9 ==> named_primaries_spec(c) == (Primaries {
            r_x: 640000,
            r_y: 330000,
            g_x: 300000,
            g_y: 600000,
            b_x: 150000,
            b_y: 60000,
            w_x: 312700,
            w_y: 329000,
        }),
        render_intent_spec(c) == (if c == 1 {
            RenderIntent::Relative
        } else {
            RenderIntent::Perceptual
        }),
{
}

/// Registering adds nothing when no surface changed.
pub proof fn lemma_registered_nothing(
    m: Map<u32, DescriptionModel>,
    first: u32,
    current: Seq<DescriptionModel>,
)
    ensures
        registered(m, first, current, Seq::empty()) == m,
{
}

} // verus!
