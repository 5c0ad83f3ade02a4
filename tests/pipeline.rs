use infuse::item::{RenderItem, UniformMap};
use infuse::registry::ShaderRegistry;
use infuse::renderer::{
    created, program_linked, shader_compiled, Command, DrawError, Renderer, ONE_BITS,
};
use infuse::uniform::Uniform;

fn bits(v: &[f32]) -> Vec<u32> {
    v.iter().map(|x| x.to_bits()).collect()
}

fn quad() -> Vec<u32> {
    bits(&[
        -1.0, -1.0, 0.0, 1.0, -1.0, 0.0, 1.0, 1.0, 0.0, -1.0, 1.0, 0.0, -1.0, -1.0, 0.0, 1.0, 1.0,
        0.0,
    ])
}

fn vec4(x: f32, y: f32, z: f32, w: f32) -> Uniform {
    Uniform::Vec4(x.to_bits(), y.to_bits(), z.to_bits(), w.to_bits())
}

#[test]
fn full_screen_quad_with_default_shader() {
    let renderer = Renderer::new(7);
    let items = vec![RenderItem::new(quad(), "default".to_string(), None)];
    let cmds = renderer.draw(&items).unwrap();
    assert_eq!(
        cmds,
        vec![
            Command::SetClearColor(0, 0, 0, ONE_BITS),
            Command::UseProgram(7),
            Command::UploadVertices(0),
            Command::Clear,
            Command::DrawTriangles(6),
        ]
    );
    assert_eq!(ONE_BITS, 1.0f32.to_bits());
}

#[test]
fn single_item_draws_a_third_of_its_coordinates() {
    let renderer = Renderer::new(0);
    let items = vec![RenderItem::new(bits(&[0.0; 27]), "default".to_string(), None)];
    let cmds = renderer.draw(&items).unwrap();
    let draws: Vec<&Command> = cmds.iter().filter(|c| matches!(c, Command::DrawTriangles(_))).collect();
    assert_eq!(draws, vec![&Command::DrawTriangles(9)]);
}

#[test]
fn colour_uniform_is_written_with_its_components() {
    let mut renderer = Renderer::new(0);
    assert_eq!(renderer.add_shader("colour".to_string(), Ok(3)), Ok(()));
    let mut uniforms = UniformMap::new();
    uniforms.insert("colour".to_string(), vec4(0.5, 0.5, 0.5, 1.0));
    let items = vec![RenderItem::new(quad(), "colour".to_string(), Some(uniforms))];
    let cmds = renderer.draw(&items).unwrap();
    assert_eq!(
        cmds,
        vec![
            Command::SetClearColor(0, 0, 0, ONE_BITS),
            Command::UseProgram(3),
            Command::SetUniform("colour".to_string(), vec4(0.5, 0.5, 0.5, 1.0)),
            Command::UploadVertices(0),
            Command::Clear,
            Command::DrawTriangles(6),
        ]
    );
}

#[test]
fn unregistered_shader_is_reported() {
    let renderer = Renderer::new(0);
    let items = vec![RenderItem::new(quad(), "missing".to_string(), None)];
    assert_eq!(
        renderer.draw(&items),
        Err(DrawError::UnresolvedShader(0, "missing".to_string()))
    );
}

#[test]
fn unregistered_shader_later_in_batch_is_reported() {
    let renderer = Renderer::new(0);
    let items = vec![
        RenderItem::new(quad(), "default".to_string(), None),
        RenderItem::new(quad(), "nope".to_string(), None),
    ];
    assert_eq!(
        renderer.draw(&items),
        Err(DrawError::UnresolvedShader(1, "nope".to_string()))
    );
}

#[test]
fn batch_of_two_clears_before_each_item() {
    let renderer = Renderer::new(1);
    let items = vec![
        RenderItem::new(quad(), "default".to_string(), None),
        RenderItem::new(bits(&[0.0, 0.0, 0.0, 1.0, 0.0, 0.0, 0.0, 1.0, 0.0]), "default".to_string(), None),
    ];
    let cmds = renderer.draw(&items).unwrap();
    assert_eq!(
        cmds,
        vec![
            Command::SetClearColor(0, 0, 0, ONE_BITS),
            Command::UseProgram(1),
            Command::UploadVertices(0),
            Command::Clear,
            Command::DrawTriangles(6),
            Command::UseProgram(1),
            Command::UploadVertices(1),
            Command::Clear,
            Command::DrawTriangles(3),
        ]
    );
    // The last clear comes after the first item's draw, so only the second
    // item's geometry stays visible.
    let last_clear = cmds.iter().rposition(|c| *c == Command::Clear).unwrap();
    let first_draw = cmds.iter().position(|c| matches!(c, Command::DrawTriangles(_))).unwrap();
    assert!(last_clear > first_draw);
}

#[test]
fn empty_batch_only_sets_clear_colour() {
    let renderer = Renderer::new(0);
    assert_eq!(renderer.draw(&Vec::new()), Ok(vec![Command::SetClearColor(0, 0, 0, ONE_BITS)]));
}

#[test]
fn added_shader_can_be_drawn() {
    let mut renderer = Renderer::new(0);
    assert_eq!(renderer.add_shader("flat".to_string(), Ok(5)), Ok(()));
    let items = vec![RenderItem::new(quad(), "flat".to_string(), None)];
    assert!(renderer.draw(&items).is_ok());
    assert_eq!(renderer.shader(&"flat".to_string()), Some(5));
}

#[test]
fn failed_add_leaves_prior_program() {
    let mut renderer = Renderer::new(0);
    assert_eq!(renderer.add_shader("s".to_string(), Ok(1)), Ok(()));
    let r = renderer.add_shader("s".to_string(), Err("ERROR: 0:1: syntax error".to_string()));
    assert_eq!(r, Err("ERROR: 0:1: syntax error".to_string()));
    assert_eq!(renderer.shader(&"s".to_string()), Some(1));
}

#[test]
fn failed_add_registers_nothing() {
    let mut renderer = Renderer::new(0);
    let r = renderer.add_shader("bad".to_string(), Err("compile failed".to_string()));
    assert!(!r.unwrap_err().is_empty());
    assert_eq!(renderer.shader(&"bad".to_string()), None);
}

#[test]
fn second_add_replaces_program() {
    let mut renderer = Renderer::new(0);
    assert_eq!(renderer.add_shader("s".to_string(), Ok(1)), Ok(()));
    assert_eq!(renderer.add_shader("s".to_string(), Ok(2)), Ok(()));
    let items = vec![RenderItem::new(quad(), "s".to_string(), None)];
    let cmds = renderer.draw(&items).unwrap();
    assert_eq!(cmds[1], Command::UseProgram(2));
    assert!(!cmds.contains(&Command::UseProgram(1)));
}

#[test]
fn default_shader_is_registered() {
    let renderer = Renderer::new(9);
    assert_eq!(renderer.shader(&"default".to_string()), Some(9));
    assert_eq!(renderer.shader(&"other".to_string()), None);
}

#[test]
fn set_uniform_without_mapping_is_noop() {
    let mut item = RenderItem::new(quad(), "default".to_string(), None);
    item.set_uniform("x".to_string(), Uniform::Float(1.0f32.to_bits()));
    item.set_uniform("x".to_string(), Uniform::Float(2.0f32.to_bits()));
    assert!(item.uniforms().is_none());
    let renderer = Renderer::new(0);
    let cmds = renderer.draw(&vec![item]).unwrap();
    assert!(!cmds.iter().any(|c| matches!(c, Command::SetUniform(..))));
}

#[test]
fn set_uniform_last_write_wins() {
    let mut item = RenderItem::new(quad(), "default".to_string(), Some(UniformMap::new()));
    item.set_uniform("x".to_string(), vec4(1.0, 2.0, 3.0, 4.0));
    item.set_uniform("x".to_string(), vec4(5.0, 6.0, 7.0, 8.0));
    let m = item.uniforms().as_ref().unwrap();
    assert_eq!(m.len(), 1);
    assert_eq!(m.get(&"x".to_string()), Some(vec4(5.0, 6.0, 7.0, 8.0)));
    let renderer = Renderer::new(0);
    let cmds = renderer.draw(&vec![item]).unwrap();
    let writes: Vec<&Command> = cmds.iter().filter(|c| matches!(c, Command::SetUniform(..))).collect();
    assert_eq!(writes, vec![&Command::SetUniform("x".to_string(), vec4(5.0, 6.0, 7.0, 8.0))]);
}

#[test]
fn uniform_map_keeps_distinct_names() {
    let mut m = UniformMap::new();
    m.insert("a".to_string(), Uniform::Float(1));
    m.insert("b".to_string(), Uniform::Vec2(1, 2));
    m.insert("a".to_string(), Uniform::Vec3(1, 2, 3));
    assert_eq!(m.len(), 2);
    assert_eq!(m.name_at(0), "a");
    assert_eq!(m.value_at(0), Uniform::Vec3(1, 2, 3));
    assert_eq!(m.get(&"b".to_string()), Some(Uniform::Vec2(1, 2)));
    assert_eq!(m.get(&"c".to_string()), None);
}

#[test]
fn uniforms_written_per_entry() {
    let mut renderer = Renderer::new(0);
    assert_eq!(renderer.add_shader("u".to_string(), Ok(4)), Ok(()));
    let mut m = UniformMap::new();
    m.insert("t".to_string(), Uniform::Float(0.25f32.to_bits()));
    m.insert("p".to_string(), Uniform::Vec2(1, 2));
    let cmds = renderer
        .draw(&vec![RenderItem::new(quad(), "u".to_string(), Some(m))])
        .unwrap();
    assert_eq!(cmds[2], Command::SetUniform("t".to_string(), Uniform::Float(0.25f32.to_bits())));
    assert_eq!(cmds[3], Command::SetUniform("p".to_string(), Uniform::Vec2(1, 2)));
    assert_eq!(cmds.len(), 7);
}

#[test]
fn item_accessors_return_fields() {
    let item = RenderItem::new(vec![1, 2, 3], "s".to_string(), None);
    assert_eq!(item.vertices(), &vec![1, 2, 3]);
    assert_eq!(item.shader_name(), "s");
}

#[test]
fn object_creation_outcomes() {
    assert_eq!(created(Some(4u8)), Ok(4u8));
    assert_eq!(created::<u8>(None), Err("Unable to create shader object".to_string()));
}

#[test]
fn compile_outcomes() {
    assert_eq!(shader_compiled(1u8, Some(true), None), Ok(1u8));
    assert_eq!(
        shader_compiled(1u8, Some(false), Some("0:1: bad token".to_string())),
        Err("0:1: bad token".to_string())
    );
    assert_eq!(
        shader_compiled(1u8, None, None),
        Err("Unknown error creating shader".to_string())
    );
}

#[test]
fn link_outcomes() {
    assert_eq!(program_linked(2u8, Some(true), Some("warn".to_string())), Ok(2u8));
    assert_eq!(
        program_linked(2u8, Some(false), Some("link failed".to_string())),
        Err("link failed".to_string())
    );
    assert_eq!(
        program_linked(2u8, Some(false), None),
        Err("Unknown error creating program object".to_string())
    );
}

#[test]
fn registry_insert_and_replace() {
    let mut r = ShaderRegistry::new();
    assert_eq!(r.get(&"a".to_string()), None);
    r.insert("a".to_string(), 1);
    r.insert("b".to_string(), 2);
    r.insert("a".to_string(), 3);
    assert_eq!(r.get(&"a".to_string()), Some(3));
    assert_eq!(r.get(&"b".to_string()), Some(2));
}

#[test]
fn empty_compile_log_gets_fallback_text() {
    assert_eq!(
        shader_compiled(1u8, Some(false), Some(String::new())),
        Err("Unknown error creating shader".to_string())
    );
}

#[test]
fn empty_link_log_gets_fallback_text() {
    assert_eq!(
        program_linked(2u8, Some(false), Some(String::new())),
        Err("Unknown error creating program object".to_string())
    );
}

#[test]
fn failed_add_with_empty_text_reports_non_empty() {
    let mut renderer = Renderer::new(0);
    assert_eq!(renderer.add_shader("s".to_string(), Ok(1)), Ok(()));
    let r = renderer.add_shader("s".to_string(), Err(String::new()));
    assert_eq!(r, Err("Unknown error creating program object".to_string()));
    assert_eq!(renderer.shader(&"s".to_string()), Some(1));
}

#[test]
fn repeated_set_uniform_without_mapping_plans_like_fresh_item() {
    let mut item = RenderItem::new(quad(), "default".to_string(), None);
    for k in 0..5u32 {
        item.set_uniform(format!("u{}", k), Uniform::Vec2(k, k + 1));
    }
    let renderer = Renderer::new(0);
    let fresh = vec![RenderItem::new(quad(), "default".to_string(), None)];
    assert_eq!(renderer.draw(&vec![item]), renderer.draw(&fresh));
}
