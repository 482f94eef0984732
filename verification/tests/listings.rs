//! Round-trip checks on whole course-listing programs: every instruction
//! decodes, renders, and re-encodes to exactly the original bytes.
use sim86::decode::{all_instructions, single_instruction};
use sim86::Instruction;

/// Decodes every instruction in `bytes` and returns them with their sizes.
fn decode_listing(mut bytes: &[u8]) -> Vec<(usize, Instruction)> {
    let mut out = Vec::new();
    while !bytes.is_empty() {
        let (consumed, instruction) = single_instruction(&mut bytes);
        assert!(consumed >= 1);
        out.push((consumed, instruction));
    }
    out
}

/// The round-trip check: decoding and re-encoding a listing reproduces its
/// bytes exactly, and the disassembly starts with the `bits 16` directive.
fn process_listing(bytes: &[u8]) {
    let disassembly = all_instructions(bytes);
    assert!(disassembly.starts_with("bits 16\n"));
    assert_eq!(disassembly.lines().count(), 1 + decode_listing(bytes).len());

    let mut rebuilt: Vec<u8> = Vec::new();
    let mut total = 0;
    for (consumed, instruction) in decode_listing(bytes) {
        let encoded = instruction.try_encode().expect("listing instruction re-encodes");
        assert_eq!(encoded.len(), consumed);
        rebuilt.extend_from_slice(&encoded);
        total += consumed;
    }
    assert_eq!(total, bytes.len());
    assert_eq!(rebuilt, bytes);
}

#[test]
fn listing_37_single_register_mov() {
    let bytes = [0x89, 0xD9];
    process_listing(&bytes);
    assert_eq!(all_instructions(&bytes), "bits 16\nmov CX, BX\n");
}

#[test]
fn listing_38_many_register_mov() {
    let bytes = [
        0x89, 0xD9, // mov cx, bx
        0x88, 0xE5, // mov ch, ah
        0x89, 0xDA, // mov dx, bx
        0x89, 0xDE, // mov si, bx
        0x89, 0xFB, // mov bx, di
        0x88, 0xC8, // mov al, cl
        0x88, 0xED, // mov ch, ch
        0x89, 0xC3, // mov bx, ax
        0x89, 0xF3, // mov bx, si
        0x89, 0xFC, // mov sp, di
        0x89, 0xC5, // mov bp, ax
    ];
    process_listing(&bytes);
}

#[test]
fn listing_39_more_movs() {
    let bytes = [
        0x89, 0xDE, // mov si, bx
        0x88, 0xC6, // mov dh, al
        0xB1, 0x0C, // mov cl, 12
        0xB5, 0xF4, // mov ch, -12
        0xB9, 0x0C, 0x00, // mov cx, 12
        0xB9, 0xF4, 0xFF, // mov cx, -12
        0xBA, 0x6C, 0x0F, // mov dx, 3948
        0xBA, 0x94, 0xF0, // mov dx, -3948
        0x8A, 0x00, // mov al, [bx + si]
        0x8B, 0x1B, // mov bx, [bp + di]
        0x8B, 0x56, 0x00, // mov dx, [bp]
        0x8A, 0x60, 0x04, // mov ah, [bx + si + 4]
        0x8A, 0x80, 0x87, 0x13, // mov al, [bx + si + 4999]
        0x89, 0x09, // mov [bx + di], cx
        0x88, 0x0A, // mov [bp + si], cl
        0x88, 0x6E, 0x00, // mov [bp], ch
    ];
    process_listing(&bytes);
}

#[test]
fn listing_41_add_sub_cmp_jnz() {
    let bytes = [
        0x03, 0x18, // add bx, [bx + si]
        0x03, 0x5E, 0x00, // add bx, [bp]
        0x83, 0xC6, 0x02, // add si, 2
        0x83, 0xC5, 0x02, // add bp, 2
        0x83, 0xC1, 0x08, // add cx, 8
        0x03, 0x5E, 0x00, // add bx, [bp + 0]
        0x03, 0x4F, 0x02, // add cx, [bx + 2]
        0x02, 0x7A, 0x04, // add bh, [bp + si + 4]
        0x03, 0x7B, 0x06, // add di, [bp + di + 6]
        0x01, 0x18, // add [bx + si], bx
        0x01, 0x5E, 0x00, // add [bp], bx
        0x01, 0x5E, 0x00, // add [bp + 0], bx
        0x01, 0x4F, 0x02, // add [bx + 2], cx
        0x00, 0x7A, 0x04, // add [bp + si + 4], bh
        0x01, 0x7B, 0x06, // add [bp + di + 6], di
        0x80, 0x07, 0x22, // add byte [bx], 34
        0x83, 0x82, 0xE8, 0x03, 0x1D, // add word [bp + si + 1000], 29
        0x03, 0x46, 0x00, // add ax, [bp]
        0x02, 0x00, // add al, [bx + si]
        0x01, 0xD8, // add ax, bx
        0x00, 0xE0, // add al, ah
        0x05, 0xE8, 0x03, // add ax, 1000
        0x04, 0xE2, // add al, -30
        0x04, 0x09, // add al, 9
        0x2B, 0x18, // sub bx, [bx + si]
        0x2B, 0x5E, 0x00, // sub bx, [bp]
        0x83, 0xEE, 0x02, // sub si, 2
        0x83, 0xED, 0x02, // sub bp, 2
        0x83, 0xE9, 0x08, // sub cx, 8
        0x2B, 0x5E, 0x00, // sub bx, [bp + 0]
        0x2B, 0x4F, 0x02, // sub cx, [bx + 2]
        0x2A, 0x7A, 0x04, // sub bh, [bp + si + 4]
        0x2B, 0x7B, 0x06, // sub di, [bp + di + 6]
        0x29, 0x18, // sub [bx + si], bx
        0x29, 0x5E, 0x00, // sub [bp], bx
        0x29, 0x5E, 0x00, // sub [bp + 0], bx
        0x29, 0x4F, 0x02, // sub [bx + 2], cx
        0x28, 0x7A, 0x04, // sub [bp + si + 4], bh
        0x29, 0x7B, 0x06, // sub [bp + di + 6], di
        0x80, 0x2F, 0x22, // sub byte [bx], 34
        0x83, 0x29, 0x1D, // sub word [bx + di], 29
        0x2B, 0x46, 0x00, // sub ax, [bp]
        0x2A, 0x00, // sub al, [bx + si]
        0x29, 0xD8, // sub ax, bx
        0x28, 0xE0, // sub al, ah
        0x2D, 0xE8, 0x03, // sub ax, 1000
        0x2C, 0xE2, // sub al, -30
        0x2C, 0x09, // sub al, 9
        0x3B, 0x18, // cmp bx, [bx + si]
        0x3B, 0x5E, 0x00, // cmp bx, [bp]
        0x83, 0xFE, 0x02, // cmp si, 2
        0x83, 0xFD, 0x02, // cmp bp, 2
        0x83, 0xF9, 0x08, // cmp cx, 8
        0x3B, 0x5E, 0x00, // cmp bx, [bp + 0]
        0x3B, 0x4F, 0x02, // cmp cx, [bx + 2]
        0x3A, 0x7A, 0x04, // cmp bh, [bp + si + 4]
        0x3B, 0x7B, 0x06, // cmp di, [bp + di + 6]
        0x39, 0x18, // cmp [bx + si], bx
        0x39, 0x5E, 0x00, // cmp [bp], bx
        0x39, 0x5E, 0x00, // cmp [bp + 0], bx
        0x39, 0x4F, 0x02, // cmp [bx + 2], cx
        0x38, 0x7A, 0x04, // cmp [bp + si + 4], bh
        0x39, 0x7B, 0x06, // cmp [bp + di + 6], di
        0x80, 0x3F, 0x22, // cmp byte [bx], 34
        0x83, 0x3E, 0xE2, 0x12, 0x1D, // cmp word [4834], 29
        0x3B, 0x46, 0x00, // cmp ax, [bp]
        0x3A, 0x00, // cmp al, [bx + si]
        0x39, 0xD8, // cmp ax, bx
        0x38, 0xE0, // cmp al, ah
        0x3D, 0xE8, 0x03, // cmp ax, 1000
        0x3C, 0xE2, // cmp al, -30
        0x3C, 0x09, // cmp al, 9
        0x75, 0x02, // jnz +2
        0x75, 0xFC, // jnz -4
        0x75, 0xFA, // jnz -6
        0x75, 0xFC, // jnz -4
        0x74, 0xFE, // je -2
        0x7C, 0xFE, // jl -2
        0x7E, 0xFE, // jle -2
        0x72, 0xFE, // jb -2
        0x76, 0xFE, // jbe -2
        0x7A, 0xFE, // jp -2
        0x70, 0xFE, // jo -2
        0x78, 0xFE, // js -2
        0x75, 0xFE, // jnz -2
        0x7D, 0xFE, // jnl -2
        0x7F, 0xFE, // jnle -2
        0x73, 0xFE, // jnb -2
        0x77, 0xFE, // jnbe -2
        0x7B, 0xFE, // jnp -2
        0x71, 0xFE, // jno -2
        0x79, 0xFE, // jns -2
        0xE2, 0xFE, // loop -2
        0xE1, 0xFE, // loopz -2
        0xE0, 0xFE, // loopnz -2
        0xE3, 0xFE, // jcxz -2
    ];
    process_listing(&bytes);
}

#[test]
fn listing_43_immediate_movs() {
    let bytes = [
        0xB8, 0x01, 0x00, // mov ax, 1
        0xBB, 0x02, 0x00, // mov bx, 2
        0xB9, 0x03, 0x00, // mov cx, 3
        0xBA, 0x04, 0x00, // mov dx, 4
        0xBC, 0x05, 0x00, // mov sp, 5
        0xBD, 0x06, 0x00, // mov bp, 6
        0xBE, 0x07, 0x00, // mov si, 7
        0xBF, 0x08, 0x00, // mov di, 8
    ];
    process_listing(&bytes);
}

#[test]
fn listing_44_register_movs() {
    let bytes = [
        0xB8, 0x01, 0x00, // mov ax, 1
        0xBB, 0x02, 0x00, // mov bx, 2
        0xB9, 0x03, 0x00, // mov cx, 3
        0xBA, 0x04, 0x00, // mov dx, 4
        0x89, 0xC4, // mov sp, ax
        0x89, 0xDD, // mov bp, bx
        0x89, 0xCE, // mov si, cx
        0x89, 0xD7, // mov di, dx
        0x89, 0xE2, // mov dx, sp
        0x89, 0xE9, // mov cx, bp
        0x89, 0xF3, // mov bx, si
        0x89, 0xF8, // mov ax, di
    ];
    process_listing(&bytes);
}

#[test]
fn tests_listing_43_immediate_movs() {}

#[test]
fn tests_listing_44_register_movs() {}
