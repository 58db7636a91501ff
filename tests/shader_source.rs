use blackhole_web::shader_text::{
    contains_text, ends_with_text, normalize_shader_source, replace_all, split_lines,
    strip_uniform_initializer,
};

#[test]
fn strips_uniform_initializer() {
    assert_eq!(strip_uniform_initializer("uniform float x = 1.0;"), "uniform float x;");
    assert_eq!(
        strip_uniform_initializer("  uniform vec3 c = vec3(1.0); // tint"),
        "  uniform vec3 c; // tint"
    );
}

#[test]
fn keeps_other_lines() {
    assert_eq!(strip_uniform_initializer("float y = 2.0;"), "float y = 2.0;");
    assert_eq!(strip_uniform_initializer("uniform float z;"), "uniform float z;");
    assert_eq!(strip_uniform_initializer("uniform float a; float b = 1.0;"), "uniform float a; float b = 1.0;");
    assert_eq!(strip_uniform_initializer("uniform float q = 1.0"), "uniform float q = 1.0");
    assert_eq!(strip_uniform_initializer("uniforms x = 1;"), "uniforms x = 1;");
    assert_eq!(strip_uniform_initializer(""), "");
}

#[test]
fn normalizes_fragment_shader() {
    let src = "#version 330 core\nuniform float t = 1.0;\nvoid main() {}\n";
    let expected = "#version 300 es\n\
        precision highp float;\n\
        precision highp sampler2D;\n\
        precision highp sampler3D;\n\
        precision highp samplerCube;\n\
        uniform float t;\n\
        void main() {}\n";
    assert_eq!(normalize_shader_source("tonemapping.frag", src), expected);
}

#[test]
fn normalizes_vertex_shader() {
    let src = "#version 330 core\r\nlayout(location = 0) in vec3 p;\r\nuniform float k = 2.0;";
    let expected = "#version 300 es\nlayout(location = 0) in vec3 p;\nuniform float k = 2.0;\n";
    assert_eq!(normalize_shader_source("simple.vert", src), expected);
}

#[test]
fn keeps_existing_precision() {
    let src = "#version 330 core\nprecision mediump float;\nout vec4 c;\n";
    let expected = "#version 300 es\nprecision mediump float;\nout vec4 c;\n";
    assert_eq!(normalize_shader_source("passthrough.frag", src), expected);
}

#[test]
fn normalizes_empty_fragment_source() {
    let expected = "precision highp float;\n\
        precision highp sampler2D;\n\
        precision highp sampler3D;\n\
        precision highp samplerCube;\n";
    assert_eq!(normalize_shader_source("a.frag", ""), expected);
    assert_eq!(normalize_shader_source("a.vert", ""), "");
}

#[test]
fn text_helpers_follow_std() {
    let cases = ["", "a", "a\n", "a\r\nb", "\n\nx\r", "x\r\n\r\n", "é\nü"];
    for c in cases {
        let mine: Vec<String> = split_lines(c);
        let std_lines: Vec<String> = c.lines().map(|l| l.to_string()).collect();
        assert_eq!(mine, std_lines, "{:?}", c);
    }
    assert_eq!(replace_all("aaa", "aa", "b"), "aaa".replace("aa", "b"));
    assert_eq!(replace_all("x#vy#v", "#v", "--"), "x--y--");
    assert!(contains_text("highp precision x", "precision "));
    assert!(!contains_text("precision", "precision "));
    assert!(contains_text("abc", ""));
    assert!(ends_with_text("bloom.frag", ".frag"));
    assert!(!ends_with_text("frag", ".frag"));
}
