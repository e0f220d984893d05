//! The attribute-count delta and the device-constant encodings.

use glscene::device::{Device, DeviceCall};
use glscene::gl::{
    BufferBaseTarget, BufferItem, BufferTarget, BufferUsage, Cleaning, ComponentType, DepthFunc,
    DrawMode, Feature, FramebufferAttachment, TexParam, TexParamName, TextureFormat, TextureKind,
    TypedArrayKind,
};

fn enables(calls: &[DeviceCall]) -> Vec<u32> {
    calls
        .iter()
        .filter_map(|c| match c {
            DeviceCall::EnableVertexAttribArray { location } => Some(*location),
            _ => None,
        })
        .collect()
}

fn disables(calls: &[DeviceCall]) -> Vec<u32> {
    calls
        .iter()
        .filter_map(|c| match c {
            DeviceCall::DisableVertexAttribArray { location } => Some(*location),
            _ => None,
        })
        .collect()
}

#[test]
fn attribute_count_delta_is_minimal() {
    let mut device = Device::new();

    // 0 -> 2: two enables.
    device.switch_attributes(2);
    let calls = device.take_calls();
    assert_eq!(calls.len(), 2);
    assert_eq!(enables(&calls), vec![0, 1]);

    // 2 -> 4: exactly the two new slots, never a full re-issue.
    device.switch_attributes(4);
    let calls = device.take_calls();
    assert_eq!(calls.len(), 2);
    assert_eq!(enables(&calls), vec![2, 3]);

    // 4 -> 1: exactly the three lost slots.
    device.switch_attributes(1);
    let calls = device.take_calls();
    assert_eq!(calls.len(), 3);
    assert_eq!(disables(&calls), vec![1, 2, 3]);

    // 1 -> 1: nothing at all.
    device.switch_attributes(1);
    assert_eq!(device.take_calls().len(), 0);
}

#[test]
fn gl_constants_match_the_wire_values() {
    assert_eq!(BufferTarget::ArrayBuffer.as_u32(), 0x8892);
    assert_eq!(BufferTarget::ElementArrayBuffer.as_u32(), 0x8893);
    assert_eq!(BufferUsage::StaticDraw.as_u32(), 0x88E4);
    assert_eq!(DrawMode::Triangles.as_u32(), 4);
    assert_eq!(DrawMode::Lines.as_u32(), 1);
    assert_eq!(Cleaning::Color.as_u32(), 0x4000);
    assert_eq!(Cleaning::Depth.as_u32(), 0x0100);
    assert_eq!(Feature::CullFace.as_u32(), 0x0B44);
    assert_eq!(Feature::DepthTest.as_u32(), 0x0B71);
    assert_eq!(TextureKind::Texture2d.as_u32(), 0x0DE1);
    assert_eq!(TextureKind::CubeMap.as_u32(), 0x8513);
    assert_eq!(TexParam::Linear.as_u32(), 0x2601);
    assert_eq!(TexParam::ClampToEdge.as_u32(), 0x812F);
    assert_eq!(TexParamName::TextureMinFilter.as_u32(), 0x2801);
    assert_eq!(TextureFormat::RGBA.as_u32(), 0x1908);
    assert_eq!(TextureFormat::Depth.as_u32(), 0x1902);
    assert_eq!(TypedArrayKind::Uint16.as_u32(), 0x1403);
    assert_eq!(TypedArrayKind::Float32.as_u32(), 0x1406);
    assert_eq!(ComponentType::UnsignedShort.as_u32(), 0x1403);
    assert_eq!(BufferBaseTarget::UniformBuffer.as_u32(), 0x8A11);
    assert_eq!(DepthFunc::Less.as_u32(), 0x0201);
    assert_eq!(DepthFunc::Lequal.as_u32(), 0x0203);
    assert_eq!(FramebufferAttachment::ColorAttachment0.as_u32(), 0x8CE0);
}

#[test]
fn buffer_items_encode_little_endian() {
    assert_eq!(<u8 as BufferItem>::to_le_bytes(&7u8), vec![7]);
    assert_eq!(<u16 as BufferItem>::to_le_bytes(&0x1234u16), vec![0x34, 0x12]);
    assert_eq!(
        <u32 as BufferItem>::to_le_bytes(&0xDEAD_BEEFu32),
        vec![0xEF, 0xBE, 0xAD, 0xDE],
    );
    assert!(matches!(<u16 as BufferItem>::array_kind(), TypedArrayKind::Uint16));
    assert_eq!(glscene::gl::size_u32::<u32>(), 4);
    assert_eq!(glscene::gl::size_u32::<u16>(), 2);
}
