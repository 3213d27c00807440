use niri_color::protocols::color_management::{
    bind_events, image_description_info, named_primaries, named_transfer_function,
    render_intent_from_wire, ColorManagementState, ImageDescription, ImageDescriptionIds, InfoEvent, LuminanceRange,
    ManagerEvent, ParametricCreatorData, Primaries, RenderIntent, SurfaceColorDescription,
    TransferFunction, PRIMARIES_BT2020, PRIMARIES_DISPLAY_P3, PRIMARIES_SRGB, TF_EXT_LINEAR,
    TF_HLG, TF_SRGB, TF_ST2084_PQ,
};

fn srgb_primaries() -> Primaries {
    Primaries {
        r_x: 640000,
        r_y: 330000,
        g_x: 300000,
        g_y: 600000,
        b_x: 150000,
        b_y: 60000,
        w_x: 312700,
        w_y: 329000,
    }
}

#[test]
fn new_state_registers_srgb() {
    let mut ids = ImageDescriptionIds::new();
    let state = ColorManagementState::new_disabled(&mut ids);
    let id = state.srgb_id();
    assert_eq!(id, 1);
    assert_eq!(state.description_or_default(id), ImageDescription::Srgb);
    assert_eq!(state.feedback_surface_count(), 0);
}

#[test]
fn ids_are_consecutive() {
    let mut ids = ImageDescriptionIds::new();
    let _state = ColorManagementState::new_disabled(&mut ids);
    let a = ids.next_image_desc_id();
    let b = ids.next_image_desc_id();
    assert_eq!(a, 2);
    assert_eq!(b, 3);
}

#[test]
fn registered_description_reads_back() {
    let mut ids = ImageDescriptionIds::new();
    let mut state = ColorManagementState::new_disabled(&mut ids);
    let icc = ImageDescription::Icc { data: vec![1, 2, 3] };
    let id = state.register_description(icc.clone(), &mut ids);
    assert_ne!(id, state.srgb_id());
    assert_eq!(state.description_or_default(id), icc);
    // Unknown IDs fall back to sRGB.
    assert_eq!(state.description_or_default(999), ImageDescription::Srgb);
}

#[test]
fn surface_description_maps_intent() {
    let mut ids = ImageDescriptionIds::new();
    let mut state = ColorManagementState::new_disabled(&mut ids);
    let desc = ImageDescription::Parametric {
        primaries: None,
        tf: Some(TransferFunction::Pq),
        luminance: None,
    };
    let id = state.register_description(desc.clone(), &mut ids);
    let s = state.surface_description(id, 1);
    assert_eq!(s.description, desc);
    assert_eq!(s.render_intent, RenderIntent::Relative);
    let s = state.surface_description(id, 0);
    assert_eq!(s.render_intent, RenderIntent::Perceptual);
    // Saturation and unknown intents fall back to perceptual.
    assert_eq!(state.surface_description(id, 2).render_intent, RenderIntent::Perceptual);
    assert_eq!(state.surface_description(id, 77).render_intent, RenderIntent::Perceptual);
    assert_eq!(state.surface_description(12345, 1).description, ImageDescription::Srgb);
}

#[test]
fn unset_description_is_srgb_perceptual() {
    let d = SurfaceColorDescription::default();
    assert_eq!(d.description, ImageDescription::Srgb);
    assert_eq!(d.render_intent, RenderIntent::Perceptual);
    assert_eq!(RenderIntent::default(), RenderIntent::Perceptual);
    assert_eq!(ImageDescription::default(), ImageDescription::Srgb);
}

#[test]
fn render_intent_wire_values() {
    assert_eq!(render_intent_from_wire(0), RenderIntent::Perceptual);
    assert_eq!(render_intent_from_wire(1), RenderIntent::Relative);
    assert_eq!(render_intent_from_wire(4), RenderIntent::Perceptual);
}

#[test]
fn srgb_info_events() {
    let events = image_description_info(&ImageDescription::Srgb);
    assert_eq!(
        events,
        vec![
            InfoEvent::TfNamed(TF_SRGB),
            InfoEvent::PrimariesNamed(PRIMARIES_SRGB),
            InfoEvent::Primaries(srgb_primaries()),
            InfoEvent::Luminances(LuminanceRange { min: 0, max: 80, reference: 80 }),
            InfoEvent::Done,
        ]
    );
}

#[test]
fn icc_info_events_fall_back_to_srgb() {
    let events = image_description_info(&ImageDescription::Icc { data: vec![0; 16] });
    assert_eq!(
        events,
        vec![InfoEvent::TfNamed(TF_SRGB), InfoEvent::PrimariesNamed(PRIMARIES_SRGB), InfoEvent::Done]
    );
}

#[test]
fn parametric_info_events() {
    let empty = ImageDescription::Parametric { primaries: None, tf: None, luminance: None };
    assert_eq!(
        image_description_info(&empty),
        vec![InfoEvent::TfNamed(TF_SRGB), InfoEvent::Done]
    );
    let cases = [
        (TransferFunction::Srgb, InfoEvent::TfNamed(TF_SRGB)),
        (TransferFunction::Linear, InfoEvent::TfNamed(TF_EXT_LINEAR)),
        (TransferFunction::Pq, InfoEvent::TfNamed(TF_ST2084_PQ)),
        (TransferFunction::Hlg, InfoEvent::TfNamed(TF_HLG)),
        (TransferFunction::Gamma(22000), InfoEvent::TfPower(22000)),
    ];
    for (tf, event) in cases {
        let d = ImageDescription::Parametric { primaries: None, tf: Some(tf), luminance: None };
        assert_eq!(image_description_info(&d), vec![event, InfoEvent::Done]);
    }
}

#[test]
fn parametric_creator_round_trip() {
    let mut creator = ParametricCreatorData::new();
    let p = Primaries {
        r_x: 700000,
        r_y: 290000,
        g_x: 160000,
        g_y: 790000,
        b_x: 130000,
        b_y: 40000,
        w_x: 312700,
        w_y: 329000,
    };
    creator.set_tf_power(24000);
    creator.set_primaries(p);
    creator.set_luminances(50, 1000, 203);
    let desc = creator.description();
    let mut ids = ImageDescriptionIds::new();
    let mut state = ColorManagementState::new_disabled(&mut ids);
    let id = state.register_description(desc, &mut ids);
    let stored = state.description_or_default(id);
    assert_eq!(
        image_description_info(&stored),
        vec![
            InfoEvent::TfPower(24000),
            InfoEvent::Primaries(p),
            InfoEvent::Luminances(LuminanceRange { min: 50, max: 1000, reference: 203 }),
            InfoEvent::Done,
        ]
    );
}

#[test]
fn named_values() {
    assert_eq!(named_primaries(PRIMARIES_SRGB), srgb_primaries());
    assert_eq!(named_primaries(PRIMARIES_BT2020).r_x, 708000);
    assert_eq!(named_primaries(PRIMARIES_BT2020).g_y, 797000);
    assert_eq!(named_primaries(PRIMARIES_DISPLAY_P3).r_x, 680000);
    assert_eq!(named_primaries(PRIMARIES_DISPLAY_P3).g_x, 265000);
    // Unsupported names (PAL here) become sRGB.
    assert_eq!(named_primaries(3), srgb_primaries());
    assert_eq!(named_transfer_function(TF_SRGB), TransferFunction::Srgb);
    assert_eq!(named_transfer_function(TF_EXT_LINEAR), TransferFunction::Linear);
    assert_eq!(named_transfer_function(TF_ST2084_PQ), TransferFunction::Pq);
    assert_eq!(named_transfer_function(TF_HLG), TransferFunction::Hlg);
    assert_eq!(named_transfer_function(1), TransferFunction::Srgb);
}

#[test]
fn creator_setters() {
    let mut c = ParametricCreatorData::new();
    assert_eq!(c.description(), ImageDescription::Parametric { primaries: None, tf: None, luminance: None });
    c.set_tf_named(TF_HLG);
    c.set_primaries_named(PRIMARIES_BT2020);
    assert_eq!(c.tf, Some(TransferFunction::Hlg));
    assert_eq!(c.primaries, Some(named_primaries(PRIMARIES_BT2020)));
    assert_eq!(c.luminance, None);
    c.set_tf_named(200);
    assert_eq!(c.tf, Some(TransferFunction::Srgb));
}

#[test]
fn bind_advertises_support() {
    let events = bind_events();
    assert_eq!(events.len(), 15);
    assert_eq!(events[0], ManagerEvent::SupportedFeature(0));
    assert_eq!(events[4], ManagerEvent::SupportedFeature(4));
    assert_eq!(events[5], ManagerEvent::SupportedIntent(0));
    assert_eq!(events[6], ManagerEvent::SupportedIntent(1));
    assert_eq!(events[7], ManagerEvent::SupportedTfNamed(TF_SRGB));
    assert_eq!(events[10], ManagerEvent::SupportedTfNamed(TF_HLG));
    assert_eq!(events[13], ManagerEvent::SupportedPrimariesNamed(PRIMARIES_DISPLAY_P3));
    assert_eq!(events[14], ManagerEvent::Done);
}

#[test]
fn feedback_notifies_only_changes() {
    let mut ids = ImageDescriptionIds::new();
    let mut state = ColorManagementState::new_disabled(&mut ids);
    state.add_feedback_surface();
    state.add_feedback_surface();
    let pq = ImageDescription::Parametric { primaries: None, tf: Some(TransferFunction::Pq), luminance: None };
    // Surfaces never told anything are always notified.
    let events = state.notify_preferred_changed(vec![ImageDescription::Srgb, pq.clone()], &mut ids);
    assert_eq!(events, vec![(0, 2), (1, 3)]);
    assert_eq!(state.description_or_default(2), ImageDescription::Srgb);
    assert_eq!(state.description_or_default(3), pq);
    // Same descriptions again: nothing to send.
    let events = state.notify_preferred_changed(vec![ImageDescription::Srgb, pq.clone()], &mut ids);
    assert!(events.is_empty());
    // Surface 0 moved to an HDR output.
    let events = state.notify_preferred_changed(vec![pq.clone(), pq.clone()], &mut ids);
    assert_eq!(events, vec![(0, 4)]);
    assert_eq!(state.description_or_default(4), pq);
}

#[test]
fn retained_feedback_surfaces_keep_their_history() {
    let mut ids = ImageDescriptionIds::new();
    let mut state = ColorManagementState::new_disabled(&mut ids);
    state.add_feedback_surface();
    state.add_feedback_surface();
    state.add_feedback_surface();
    let icc = ImageDescription::Icc { data: vec![9] };
    state.notify_preferred_changed(vec![ImageDescription::Srgb, icc.clone(), ImageDescription::Srgb], &mut ids);
    // The middle surface's resource was destroyed.
    state.retain_feedback_surfaces(&vec![true, false, true]);
    assert_eq!(state.feedback_surface_count(), 2);
    let events = state.notify_preferred_changed(vec![ImageDescription::Srgb, icc.clone()], &mut ids);
    assert_eq!(events.len(), 1);
    assert_eq!(events[0].0, 1);
    assert_eq!(state.description_or_default(events[0].1), icc);
}

#[test]
fn retaining_everything_changes_nothing() {
    let mut ids = ImageDescriptionIds::new();
    let mut state = ColorManagementState::new_disabled(&mut ids);
    state.add_feedback_surface();
    state.add_feedback_surface();
    state.notify_preferred_changed(vec![ImageDescription::Srgb, ImageDescription::Srgb], &mut ids);
    state.retain_feedback_surfaces(&vec![true, true]);
    assert_eq!(state.feedback_surface_count(), 2);
    assert!(state
        .notify_preferred_changed(vec![ImageDescription::Srgb, ImageDescription::Srgb], &mut ids)
        .is_empty());
}

#[test]
fn destroying_every_feedback_surface() {
    let mut ids = ImageDescriptionIds::new();
    let mut state = ColorManagementState::new_disabled(&mut ids);
    state.add_feedback_surface();
    state.retain_feedback_surfaces(&vec![false]);
    assert_eq!(state.feedback_surface_count(), 0);
    assert!(state.notify_preferred_changed(vec![], &mut ids).is_empty());
}

#[test]
fn icc_equality_compares_bytes() {
    let mut ids = ImageDescriptionIds::new();
    let mut state = ColorManagementState::new_disabled(&mut ids);
    state.add_feedback_surface();
    let events = state.notify_preferred_changed(vec![ImageDescription::Icc { data: vec![1, 2] }], &mut ids);
    assert_eq!(events.len(), 1);
    let events = state.notify_preferred_changed(vec![ImageDescription::Icc { data: vec![1, 2] }], &mut ids);
    assert!(events.is_empty());
    let events = state.notify_preferred_changed(vec![ImageDescription::Icc { data: vec![1, 3] }], &mut ids);
    assert_eq!(events.len(), 1);
    let events = state.notify_preferred_changed(vec![ImageDescription::Icc { data: vec![1, 3, 0] }], &mut ids);
    assert_eq!(events.len(), 1);
}

#[test]
fn states_share_one_id_counter() {
    let mut ids = ImageDescriptionIds::new();
    let mut first = ColorManagementState::new_disabled(&mut ids);
    let mut second = ColorManagementState::new_disabled(&mut ids);
    assert_eq!(first.srgb_id(), 1);
    assert_eq!(second.srgb_id(), 2);
    let a = first.register_description(ImageDescription::Srgb, &mut ids);
    let b = second.register_description(ImageDescription::Srgb, &mut ids);
    assert_eq!((a, b), (3, 4));
}

#[test]
fn registration_keeps_earlier_descriptions() {
    let mut ids = ImageDescriptionIds::new();
    let mut state = ColorManagementState::new_disabled(&mut ids);
    let icc = ImageDescription::Icc { data: vec![4, 5] };
    let a = state.register_description(icc.clone(), &mut ids);
    let b = state.register_description(ImageDescription::Srgb, &mut ids);
    assert_ne!(a, b);
    assert_eq!(state.description_or_default(a), icc);
    assert_eq!(state.description_or_default(state.srgb_id()), ImageDescription::Srgb);
}

#[test]
fn unsupported_creators_answer_with_srgb() {
    let mut ids = ImageDescriptionIds::new();
    let state = ColorManagementState::new_disabled(&mut ids);
    let id = state.fallback_description_id();
    assert_eq!(id, state.srgb_id());
    assert_eq!(state.description_or_default(id), ImageDescription::Srgb);
    // Nothing was registered: the counter has not moved.
    assert_eq!(ids.next_image_desc_id(), 2);
}
