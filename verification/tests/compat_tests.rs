use voxelruler::mc_compat::{
    arm64_override_for, diagnose_with_os, macos_override_for, ADVICE_DISPLAY, ADVICE_GL_CORE,
    ADVICE_LWJGL2_MACOS, ADVICE_MACOS_GLFW_TOO_NEW, ADVICE_MACOS_OLD_GLFW, ADVICE_NATIVES,
    ADVICE_NO_HW_ACCEL, ADVICE_VULKAN,
};
use voxelruler::mc_types::{McLibrary, McSpecificVersionDetail};

#[test]
fn test_diagnose_known_signatures() {
    let log = ["org.lwjgl.LWJGLException: PIXEL FORMAT NOT ACCELERATED"];
    assert_eq!(diagnose_with_os(&log, "windows"), Some(ADVICE_NO_HW_ACCEL));

    let log = [
        "GLFW error 65543: WGL: OpenGL profile requested but WGL_ARB_create_context_profile is unavailable",
    ];
    assert_eq!(diagnose_with_os(&log, "windows"), Some(ADVICE_GL_CORE));

    let log = ["[Render thread/ERROR]: vkCreateInstance: VK_ERROR_INCOMPATIBLE_DRIVER"];
    assert_eq!(diagnose_with_os(&log, "macos"), Some(ADVICE_VULKAN));

    let log = [
        "# A fatal error has been detected by the Java Runtime Environment:",
        "# Problematic frame:",
        "# C  [liblwjgl.dylib+0x1234]",
    ];
    assert_eq!(diagnose_with_os(&log, "macos"), Some(ADVICE_LWJGL2_MACOS));

    let log = ["# A fatal error has been detected by the Java Runtime Environment:"];
    assert_eq!(diagnose_with_os(&log, "macos"), None);
}

#[test]
fn test_diagnose_os_gating() {
    let log = ["GLFW error 65544: Cocoa: Failed to find service port for display"];
    assert_eq!(diagnose_with_os(&log, "macos"), Some(ADVICE_MACOS_OLD_GLFW));
    assert_eq!(diagnose_with_os(&log, "linux"), Some(ADVICE_DISPLAY));

    let log = ["GLFW error 65544: Cocoa: some other platform error"];
    assert_eq!(diagnose_with_os(&log, "macos"), None);

    let log = [
        "java.lang.IllegalStateException: GLFW error 65548: Cocoa: Regular windows do not have icons on macOS",
    ];
    assert_eq!(diagnose_with_os(&log, "macos"), Some(ADVICE_MACOS_GLFW_TOO_NEW));

    let log = ["org.lwjgl.LWJGLException: Pixel format not accelerated"];
    assert_eq!(diagnose_with_os(&log, "macos"), None);
}

#[test]
fn test_diagnose_priority_and_none() {
    let log = [
        "java.lang.UnsatisfiedLinkError: no lwjgl in java.library.path",
        "org.lwjgl.LWJGLException: Pixel format not accelerated",
    ];
    assert_eq!(diagnose_with_os(&log, "windows"), Some(ADVICE_NO_HW_ACCEL));

    let log = ["java.lang.UnsatisfiedLinkError: no lwjgl in java.library.path"];
    assert_eq!(diagnose_with_os(&log, "windows"), Some(ADVICE_NATIVES));

    let log = ["[main/INFO]: Stopping!", "SoundEngine shut down"];
    assert_eq!(diagnose_with_os(&log, "linux"), None);
}

fn version_with(libs: &[&str]) -> McSpecificVersionDetail {
    McSpecificVersionDetail {
        id: "v".into(),
        version_type: "release".into(),
        time: "".into(),
        release_time: "".into(),
        compliance_level: None,
        minimum_launcher_version: None,
        main_class: "Main".into(),
        java_version: None,
        downloads: None,
        asset_index: None,
        assets: None,
        logging: None,
        libraries: libs
            .iter()
            .map(|n| McLibrary {
                name: n.to_string(),
                url: None,
                downloads: None,
                rules: None,
                natives: None,
                extract: None,
            })
            .collect(),
        arguments: None,
        minecraft_arguments: None,
    }
}

#[test]
fn arm64_layer_for_lwjgl3_version_replaces_lwjgl() {
    let v = version_with(&["org.lwjgl:lwjgl:3.2.1", "com.mojang:patchy:1.1"]);
    let ov = arm64_override_for(&v).expect("an LWJGL 3 version gets a layer");
    assert!(ov.excludes("org.lwjgl:lwjgl:3.2.1"));
    assert!(ov.excludes("org.lwjgl:lwjgl-glfw:3.2.1"));
    assert!(!ov.excludes("com.mojang:patchy:1.1"));
    assert!(ov.artifacts.iter().any(|a| a.rel_path.contains("3.3.1")));
}

#[test]
fn arm64_layer_absent_for_version_with_arm64_natives() {
    let v = version_with(&["org.lwjgl:lwjgl:3.3.1:natives-macos-arm64"]);
    assert!(arm64_override_for(&v).is_none());
}

#[test]
fn arm64_layer_for_lwjgl2_version() {
    let v = version_with(&["org.lwjgl.lwjgl:lwjgl:2.9.4"]);
    let ov = arm64_override_for(&v).expect("an LWJGL 2 version gets a layer");
    assert!(ov.excludes("org.lwjgl.lwjgl:lwjgl:2.9.4"));
}

#[test]
fn x64_java_gets_the_x64_layer_only_for_lwjgl3() {
    let v3 = version_with(&["org.lwjgl:lwjgl:3.2.1"]);
    assert!(macos_override_for(&v3, false).is_some());
    let v2 = version_with(&["org.lwjgl.lwjgl:lwjgl:2.9.4"]);
    assert!(macos_override_for(&v2, false).is_none());
}
