use niri_color::render_helpers::shaders::{
    ColorCorrectionProgram, ProgramType, Shaders, ToneMapProgram,
};

fn shaders() -> Shaders<String, u32> {
    Shaders::new(
        Some("border".to_string()),
        Some("shadow".to_string()),
        Some(1),
        Some("resize".to_string()),
        None,
        None,
        None,
    )
}

#[test]
fn builtin_programs() {
    let s = shaders();
    assert_eq!(s.program(ProgramType::Border).as_deref(), Some("border"));
    assert_eq!(s.program(ProgramType::Shadow).as_deref(), Some("shadow"));
    assert_eq!(s.program(ProgramType::Resize).as_deref(), Some("resize"));
    assert_eq!(s.program(ProgramType::Close), None);
    assert_eq!(s.program(ProgramType::Open), None);
}

#[test]
fn custom_programs_replace_and_return_previous() {
    let mut s = shaders();
    assert_eq!(s.replace_custom_resize_program(Some("mine".to_string())), None);
    assert_eq!(s.program(ProgramType::Resize).as_deref(), Some("mine"));
    assert_eq!(
        s.replace_custom_resize_program(None).as_deref(),
        Some("mine")
    );
    assert_eq!(s.program(ProgramType::Resize).as_deref(), Some("resize"));

    assert_eq!(s.replace_custom_close_program(Some("close".to_string())), None);
    assert_eq!(s.program(ProgramType::Close).as_deref(), Some("close"));
    assert_eq!(s.replace_custom_open_program(Some("open".to_string())), None);
    assert_eq!(s.program(ProgramType::Open).as_deref(), Some("open"));
    assert_eq!(s.replace_custom_open_program(None).as_deref(), Some("open"));
    assert_eq!(s.program(ProgramType::Open), None);
}

#[test]
fn program_uniform_locations() {
    let c = ColorCorrectionProgram::from_locations(7, &vec![1, 2, 3]);
    assert_eq!(c, ColorCorrectionProgram { program: 7, u_tex: 1, u_color_lut: 2, u_alpha: 3 });
    let t = ToneMapProgram::from_locations(9, &vec![0, -1, 2, 3, 4, 5]);
    assert_eq!(
        t,
        ToneMapProgram {
            program: 9,
            u_tex: 0,
            u_src_tf: -1,
            u_dst_tf: 2,
            u_src_max_lum: 3,
            u_dst_max_lum: 4,
            u_color_matrix: 5,
        }
    );
}

#[test]
fn failed_custom_compile_keeps_previous_program() {
    let mut s = shaders();
    let displaced = s.set_custom_resize_program::<()>(Some(Ok("first".to_string())));
    assert_eq!(displaced, None);
    assert_eq!(s.program(ProgramType::Resize).as_deref(), Some("first"));
    // A failed compile changes nothing and displaces nothing.
    let displaced = s.set_custom_resize_program(Some(Err("syntax error")));
    assert_eq!(displaced, None);
    assert_eq!(s.program(ProgramType::Resize).as_deref(), Some("first"));
    // Replacing hands back the previous program for destruction.
    let displaced = s.set_custom_resize_program::<()>(Some(Ok("second".to_string())));
    assert_eq!(displaced.as_deref(), Some("first"));
    // Unsetting restores the built-in program.
    let displaced = s.set_custom_resize_program::<()>(None);
    assert_eq!(displaced.as_deref(), Some("second"));
    assert_eq!(s.program(ProgramType::Resize).as_deref(), Some("resize"));
}

#[test]
fn custom_close_and_open_programs() {
    let mut s = shaders();
    assert_eq!(s.set_custom_close_program::<()>(Some(Ok("c".to_string()))), None);
    assert_eq!(s.set_custom_open_program::<()>(Some(Ok("o".to_string()))), None);
    assert_eq!(s.program(ProgramType::Close).as_deref(), Some("c"));
    assert_eq!(s.program(ProgramType::Open).as_deref(), Some("o"));
    assert_eq!(s.set_custom_close_program(Some(Err(1))), None);
    assert_eq!(s.program(ProgramType::Close).as_deref(), Some("c"));
    assert_eq!(s.set_custom_open_program::<()>(None).as_deref(), Some("o"));
    assert_eq!(s.program(ProgramType::Open), None);
    // Built-in programs are untouched.
    assert_eq!(s.program(ProgramType::Border).as_deref(), Some("border"));
}
