use vstd::prelude::*;
use crate::item::{
    lemma_absent_uniforms_stay_absent, uniforms_after_sets, RenderItem, RenderItemView,
    UniformEntries,
};
use crate::registry::{ProgramHandle, ShaderRegistry};
use crate::uniform::Uniform;

verus! {

/// Bit pattern of the float 1.0.
pub const ONE_BITS: u32 = 0x3f80_0000;

/// Pass-through vertex shader of the built-in program.
pub const DEFAULT_VERTEX_SOURCE: &'static str = "
            attribute vec4 position;
            void main() {
                gl_Position = position;
            }
            ";

/// Fragment shader of the built-in program: opaque white.
pub const DEFAULT_FRAGMENT_SOURCE: &'static str = "
            void main() {
                gl_FragColor = vec4(1.0, 1.0, 1.0, 1.0);
            }
            ";

/// One call to make on the graphics context, in order.
#[derive(Clone, PartialEq, Eq, Debug)]
pub enum Command {
    /// Set the clear colour (r, g, b, a as float bit patterns).
    SetClearColor(u32, u32, u32, u32),
    /// Bind a program as current.
    UseProgram(ProgramHandle),
    /// Look the uniform up by name in the bound program and write the value
    /// with the call of its arity; a uniform the program lacks is skipped.
    SetUniform(String, Uniform),
    /// Upload the vertices of the item at this position into a fresh buffer
    /// bound to attribute slot 0 (three floats per vertex, static data).
    UploadVertices(usize),
    /// Clear the colour buffer.
    Clear,
    /// Draw a triangle list of this many vertices, from vertex 0.
    DrawTriangles(usize),
}

/// What a command is, with its names as character sequences.
pub enum CommandView {
    SetClearColor(u32, u32, u32, u32),
    UseProgram(ProgramHandle),
    SetUniform(Seq<char>, Uniform),
    UploadVertices(usize),
    Clear,
    DrawTriangles(usize),
}

impl View for Command {
    type V = CommandView;

    open spec fn view(&self) -> CommandView {
        match self {
            Command::SetClearColor(r, g, b, a) => CommandView::SetClearColor(*r, *g, *b, *a),
            Command::UseProgram(p) => CommandView::UseProgram(*p),
            Command::SetUniform(n, v) => CommandView::SetUniform(n@, *v),
            Command::UploadVertices(i) => CommandView::UploadVertices(*i),
            Command::Clear => CommandView::Clear,
            Command::DrawTriangles(n) => CommandView::DrawTriangles(*n),
        }
    }
}

pub open spec fn commands_view(cs: Seq<Command>) -> Seq<CommandView> {
    cs.map_values(|c: Command| c@)
}

pub open spec fn items_view(items: Seq<RenderItem>) -> Seq<RenderItemView> {
    items.map_values(|it: RenderItem| it@)
}

/// The name of the built-in shader.
pub open spec fn default_name() -> Seq<char> {
    seq!['d', 'e', 'f', 'a', 'u', 'l', 't']
}

/// Number of vertices drawn for `vertices` coordinates: one per three.
pub open spec fn vertex_count(vertices: Seq<u32>) -> usize {
    (vertices.len() / 3) as usize
}

/// Uniform writes for an item's entries, one per entry.
pub open spec fn uniform_steps(uniforms: Option<UniformEntries>) -> Seq<CommandView> {
    match uniforms {
        Some(es) => es.map_values(|e: (Seq<char>, Uniform)| CommandView::SetUniform(e.0, e.1)),
        None => Seq::empty(),
    }
}

/// The commands for the item at position `index`, drawn with `program`:
/// bind, write uniforms, upload, clear, draw.
pub open spec fn item_steps(program: ProgramHandle, index: usize, item: RenderItemView) -> Seq<
    CommandView,
> {
    seq![CommandView::UseProgram(program)] + uniform_steps(item.uniforms) + seq![
        CommandView::UploadVertices(index),
        CommandView::Clear,
        CommandView::DrawTriangles(vertex_count(item.vertices)),
    ]
}

/// The commands for `items` in order, each drawn with the program its name
/// resolves to.
pub open spec fn items_steps(
    shaders: Map<Seq<char>, ProgramHandle>,
    items: Seq<RenderItemView>,
) -> Seq<CommandView>
    decreases items.len(),
{
    if items.len() == 0 {
        Seq::empty()
    } else {
        let last = items.last();
        items_steps(shaders, items.drop_last()) + item_steps(
            shaders[last.shader_name],
            (items.len() - 1) as usize,
            last,
        )
    }
}

/// The commands of one frame: the clear colour set to opaque black, then
/// each item's commands in order.
pub open spec fn frame_steps(
    shaders: Map<Seq<char>, ProgramHandle>,
    items: Seq<RenderItemView>,
) -> Seq<CommandView> {
    seq![CommandView::SetClearColor(0, 0, 0, ONE_BITS)] + items_steps(shaders, items)
}

/// Every item names a registered shader.
pub open spec fn all_resolved(
    shaders: Map<Seq<char>, ProgramHandle>,
    items: Seq<RenderItemView>,
) -> bool {
    forall|i: int| 0 <= i < items.len() ==> shaders.contains_key(#[trigger] items[i].shader_name)
}

/// Diagnostic for a shader or program object the context could not create.
pub open spec fn creation_failed_text() -> Seq<char> {
    "Unable to create shader object"@
}

/// Diagnostic for a failed compile that came with no log.
pub open spec fn unknown_compile_text() -> Seq<char> {
    "Unknown error creating shader"@
}

/// Diagnostic for a failed link that came with no log.
pub open spec fn unknown_link_text() -> Seq<char> {
    "Unknown error creating program object"@
}

/// The object the context created, or the diagnostic for none.
pub fn created<T>(object: Option<T>) -> (r: Result<T, String>)
    ensures
        match object {
            Some(o) => r == Ok::<T, String>(o),
            None => r matches Err(e) && e@ == creation_failed_text(),
        },
        r matches Err(e) ==> e@.len() > 0,
{
    match object {
        Some(o) => Ok(o),
        None => {
            proof {
                reveal_strlit("Unable to create shader object");
            }
            Err("Unable to create shader object".to_owned())
        },
    }
}

/// The diagnostic of a failed step: the driver's log when it gave a
/// non-empty one, else the fallback text.
pub open spec fn diagnostic_text(log: Option<String>, fallback: Seq<char>) -> Seq<char> {
    match log {
        Some(l) => if l@.len() > 0 {
            l@
        } else {
            fallback
        },
        None => fallback,
    }
}

fn diagnostic(log: Option<String>, fallback: &str) -> (r: String)
    ensures
        r@ == diagnostic_text(log, fallback@),
{
    match log {
        Some(l) => if l.as_str().is_empty() {
            fallback.to_owned()
        } else {
            l
        },
        None => fallback.to_owned(),
    }
}

/// Outcome of compiling a shader stage: the shader when the compile status
/// read back as true, else the driver's log (or a fallback text).
pub fn shader_compiled<S>(shader: S, status: Option<bool>, log: Option<String>) -> (r: Result<
    S,
    String,
>)
    ensures
        status == Some(true) ==> r == Ok::<S, String>(shader),
        status != Some(true) ==> (r matches Err(e) && e@ == diagnostic_text(log, unknown_compile_text())),
        status != Some(true) ==> (r matches Err(e) && e@.len() > 0),
{
    if status == Some(true) {
        Ok(shader)
    } else {
        proof {
            reveal_strlit("Unknown error creating shader");
        }
        Err(diagnostic(log, "Unknown error creating shader"))
    }
}

/// Outcome of linking a program: the program when the link status read back
/// as true, else the driver's log (or a fallback text).
pub fn program_linked<P>(program: P, status: Option<bool>, log: Option<String>) -> (r: Result<
    P,
    String,
>)
    ensures
        status == Some(true) ==> r == Ok::<P, String>(program),
        status != Some(true) ==> (r matches Err(e) && e@ == diagnostic_text(log, unknown_link_text())),
        status != Some(true) ==> (r matches Err(e) && e@.len() > 0),
{
    if status == Some(true) {
        Ok(program)
    } else {
        proof {
            reveal_strlit("Unknown error creating program object");
        }
        Err(diagnostic(log, "Unknown error creating program object"))
    }
}

/// A shader that has been added resolves: once `name` maps to a program,
/// every frame whose items name it or another registered shader is planned
/// without error.
pub proof fn lemma_added_shader_resolves(
    shaders: Map<Seq<char>, ProgramHandle>,
    name: Seq<char>,
    program: ProgramHandle,
    items: Seq<RenderItemView>,
)
    requires
        forall|i: int|
            0 <= i < items.len() ==> (#[trigger] items[i]).shader_name == name
                || shaders.contains_key(items[i].shader_name),
    ensures
        all_resolved(shaders.insert(name, program), items),
{
    assert forall|i: int| 0 <= i < items.len() implies shaders.insert(
        name,
        program,
    ).contains_key(#[trigger] items[i].shader_name) by {
        if items[i].shader_name != name {
            assert(shaders.contains_key(items[i].shader_name));
        }
    }
}

/// Adding a shader twice under one name keeps only the second program: every
/// later frame is planned exactly as if the first had never been added.
pub proof fn lemma_re_add_replaces(
    shaders: Map<Seq<char>, ProgramHandle>,
    name: Seq<char>,
    first: ProgramHandle,
    second: ProgramHandle,
    items: Seq<RenderItemView>,
)
    ensures
        shaders.insert(name, first).insert(name, second)[name] == second,
        frame_steps(shaders.insert(name, first).insert(name, second), items) == frame_steps(
            shaders.insert(name, second),
            items,
        ),
{
    assert(shaders.insert(name, first).insert(name, second) =~= shaders.insert(name, second));
}

/// A frame of one item without uniforms is exactly: set the clear colour,
/// bind the item's program, upload its vertices, clear, and one draw of a
/// third as many vertices as it has coordinates.
pub proof fn lemma_single_item_frame(shaders: Map<Seq<char>, ProgramHandle>, item: RenderItemView)
    requires
        shaders.contains_key(item.shader_name),
        item.uniforms is None,
    ensures
        all_resolved(shaders, seq![item]),
        frame_steps(shaders, seq![item]) == seq![
            CommandView::SetClearColor(0, 0, 0, ONE_BITS),
            CommandView::UseProgram(shaders[item.shader_name]),
            CommandView::UploadVertices(0),
            CommandView::Clear,
            CommandView::DrawTriangles(vertex_count(item.vertices)),
        ],
{
    let items = seq![item];
    assert(items.drop_last() =~= Seq::<RenderItemView>::empty());
    assert(items_steps(shaders, items.drop_last()) =~= Seq::<CommandView>::empty());
    assert(uniform_steps(item.uniforms) =~= Seq::<CommandView>::empty());
    assert(frame_steps(shaders, items) =~= seq![
        CommandView::SetClearColor(0, 0, 0, ONE_BITS),
        CommandView::UseProgram(shaders[item.shader_name]),
        CommandView::UploadVertices(0),
        CommandView::Clear,
        CommandView::DrawTriangles(vertex_count(item.vertices)),
    ]);
}

/// An item without uniforms gets no uniform write.
pub proof fn lemma_no_uniforms_no_writes(
    program: ProgramHandle,
    index: usize,
    item: RenderItemView,
)
    requires
        item.uniforms is None,
    ensures
        forall|k: int|
            0 <= k < item_steps(program, index, item).len() ==> !(#[trigger] item_steps(
                program,
                index,
                item,
            )[k] is SetUniform),
{
    assert(item_steps(program, index, item) =~= seq![
        CommandView::UseProgram(program),
        CommandView::UploadVertices(index),
        CommandView::Clear,
        CommandView::DrawTriangles(vertex_count(item.vertices)),
    ]);
}

/// Setting uniforms on an item built without them, any number of times,
/// never leads to a uniform write: its commands are those of the item as it
/// was built.
pub proof fn lemma_sets_on_absent_write_nothing(
    program: ProgramHandle,
    index: usize,
    item: RenderItemView,
    sets: UniformEntries,
)
    requires
        item.uniforms is None,
    ensures
        item_steps(program, index, RenderItemView { uniforms: uniforms_after_sets(item.uniforms, sets), ..item })
            == item_steps(program, index, item),
        forall|k: int|
            0 <= k < item_steps(program, index, item).len() ==> !(#[trigger] item_steps(
                program,
                index,
                item,
            )[k] is SetUniform),
{
    lemma_absent_uniforms_stay_absent(sets);
    let after = RenderItemView { uniforms: uniforms_after_sets(item.uniforms, sets), ..item };
    assert(after == item);
    lemma_no_uniforms_no_writes(program, index, item);
}

/// Why a frame could not be planned.
#[derive(Clone, PartialEq, Eq, Debug)]
pub enum DrawError {
    /// The item at this position names a shader that is not registered.
    UnresolvedShader(usize, String),
}

/// The drawing pipeline: the registry of linked programs, which plans each
/// frame as a list of graphics-context commands.
pub struct Renderer {
    shaders: ShaderRegistry,
}

impl View for Renderer {
    type V = Map<Seq<char>, ProgramHandle>;

    closed spec fn view(&self) -> Map<Seq<char>, ProgramHandle> {
        self.shaders@
    }
}

impl Renderer {
    pub closed spec fn wf(&self) -> bool {
        self.shaders.wf()
    }

    /// A pipeline whose registry holds the built-in shader, linked as
    /// `default_program`.
    pub fn new(default_program: ProgramHandle) -> (r: Renderer)
        ensures
            r.wf(),
            r@ == map![default_name() => default_program],
    {
        let mut shaders = ShaderRegistry::new();
        let name = "default".to_owned();
        proof {
            reveal_strlit("default");
        }
        assert(name@ =~= default_name());
        shaders.insert(name, default_program);
        let r = Renderer { shaders };
        assert(r@ =~= map![default_name() => default_program]);
        r
    }

    /// The program registered under `name`, if any.
    pub fn shader(&self, name: &String) -> (r: Option<ProgramHandle>)
        requires
            self.wf(),
        ensures
            r == (if self@.contains_key(name@) {
                Some(self@[name@])
            } else {
                None
            }),
    {
        self.shaders.get(name)
    }

    /// Registers the outcome of compiling and linking a shader under `name`:
    /// a linked program replaces any program of that name; a diagnostic is
    /// handed back (the fallback text in place of an empty one) and the
    /// registry is left untouched.
    pub fn add_shader(&mut self, name: String, linked: Result<ProgramHandle, String>) -> (r:
        Result<(), String>)
        requires
            old(self).wf(),
        ensures
            final(self).wf(),
            match linked {
                Ok(p) => r is Ok && final(self)@ == old(self)@.insert(name@, p),
                Err(e) => r matches Err(x) && x@ == (if e@.len() > 0 {
                    e@
                } else {
                    unknown_link_text()
                }) && final(self)@ == old(self)@,
            },
            r matches Err(x) ==> x@.len() > 0,
    {
        match linked {
            Ok(p) => {
                self.shaders.insert(name, p);
                Ok(())
            },
            Err(e) => {
                proof {
                    reveal_strlit("Unknown error creating program object");
                }
                Err(diagnostic(Some(e), "Unknown error creating program object"))
            },
        }
    }

    /// Plans one frame: the commands that draw `items` in order, or the first
    /// item whose shader is not registered.
    pub fn draw(&self, items: &Vec<RenderItem>) -> (r: Result<Vec<Command>, DrawError>)
        requires
            self.wf(),
            forall|i: int| 0 <= i < items@.len() ==> (#[trigger] items@[i]).wf(),
        ensures
            r is Ok <==> all_resolved(self@, items_view(items@)),
            match r {
                Ok(cs) => all_resolved(self@, items_view(items@)) && commands_view(cs@)
                    == frame_steps(self@, items_view(items@)),
                Err(DrawError::UnresolvedShader(i, n)) => i < items@.len() && n@
                    == items@[i as int]@.shader_name && !self@.contains_key(n@) && all_resolved(
                    self@,
                    items_view(items@).take(i as int),
                ),
            },
    {
        let ghost views = items_view(items@);
        let mut cmds: Vec<Command> = Vec::new();
        cmds.push(Command::SetClearColor(0, 0, 0, ONE_BITS));
        assert(commands_view(cmds@) =~= frame_steps(self@, views.take(0)));
        let mut i: usize = 0;
        while i < items.len()
            invariant
                self.wf(),
                views == items_view(items@),
                i <= items@.len(),
                all_resolved(self@, views.take(i as int)),
                commands_view(cmds@) == frame_steps(self@, views.take(i as int)),
            decreases items.len() - i,
        {
            let item = &items[i];
            let program = match self.shader(item.shader_name()) {
                Some(p) => p,
                None => {
                    assert(views[i as int] == item@);
                    assert(!self@.contains_key(views[i as int].shader_name));
                    return Err(DrawError::UnresolvedShader(i, item.shader_name().clone()));
                },
            };
            let ghost before = commands_view(cmds@);
            cmds.push(Command::UseProgram(program));
            match item.uniforms() {
                Some(m) => {
                    let mut j: usize = 0;
                    while j < m.len()
                        invariant
                            j <= m@.len(),
                            commands_view(cmds@) == before + seq![CommandView::UseProgram(program)]
                                + uniform_steps(Some(m@)).take(j as int),
                        decreases m@.len() - j,
                    {
                        let ghost prev = cmds@;
                        let c = Command::SetUniform(m.name_at(j).clone(), m.value_at(j));
                        assert(c@ == CommandView::SetUniform(m@[j as int].0, m@[j as int].1));
                        cmds.push(c);
                        assert(commands_view(cmds@) =~= commands_view(prev).push(c@));
                        assert(uniform_steps(Some(m@)).take(j + 1) =~= uniform_steps(
                            Some(m@),
                        ).take(j as int).push(CommandView::SetUniform(m@[j as int].0, m@[j as int].1)));
                        assert(commands_view(cmds@) =~= before + seq![
                            CommandView::UseProgram(program),
                        ] + uniform_steps(Some(m@)).take(j + 1));
                        j = j + 1;
                    }
                    assert(uniform_steps(Some(m@)).take(j as int) =~= uniform_steps(Some(m@)));
                    assert(item@.uniforms == Some(m@));
                },
                None => {
                    assert(commands_view(cmds@) =~= before + seq![CommandView::UseProgram(program)]
                        + uniform_steps(item@.uniforms));
                },
            }
            let ghost mid = cmds@;
            assert(commands_view(mid) == before + seq![CommandView::UseProgram(program)]
                + uniform_steps(item@.uniforms));
            let count = item.vertices().len() / 3;
            assert(count == vertex_count(item@.vertices));
            cmds.push(Command::UploadVertices(i));
            cmds.push(Command::Clear);
            cmds.push(Command::DrawTriangles(count));
            assert(commands_view(cmds@) =~= commands_view(mid) + seq![
                CommandView::UploadVertices(i),
                CommandView::Clear,
                CommandView::DrawTriangles(count),
            ]);
            proof {
                let next = views.take(i + 1);
                assert(next.drop_last() =~= views.take(i as int));
                assert(next.last() == item@);
                assert(commands_view(cmds@) =~= before + item_steps(program, i, item@));
                assert(commands_view(cmds@) =~= frame_steps(self@, next));
                assert forall|k: int| 0 <= k < next.len() implies self@.contains_key(
                    #[trigger] next[k].shader_name,
                ) by {
                    if k < i {
                        assert(views.take(i as int)[k] == next[k]);
                    }
                }
            }
            i = i + 1;
        }
        assert(views.take(i as int) =~= views);
        Ok(cmds)
    }
}

} // verus!
