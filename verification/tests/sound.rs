use snake_cli::sound::wav_header;

#[test]
fn wav_header_bytes_are_exact() {
    let h = wav_header(1764, 22050);
    let mut want: Vec<u8> = Vec::new();
    want.extend_from_slice(b"RIFF");
    want.extend_from_slice(&(36u32 + 3528).to_le_bytes());
    want.extend_from_slice(b"WAVE");
    want.extend_from_slice(b"fmt ");
    want.extend_from_slice(&16u32.to_le_bytes());
    want.extend_from_slice(&1u16.to_le_bytes());
    want.extend_from_slice(&1u16.to_le_bytes());
    want.extend_from_slice(&22050u32.to_le_bytes());
    want.extend_from_slice(&44100u32.to_le_bytes());
    want.extend_from_slice(&2u16.to_le_bytes());
    want.extend_from_slice(&16u16.to_le_bytes());
    want.extend_from_slice(b"data");
    want.extend_from_slice(&3528u32.to_le_bytes());
    assert_eq!(h, want);
    assert_eq!(h.len(), 44);
    assert_eq!(&wav_header(0, 8000)[4..8], &[36, 0, 0, 0]);
}
