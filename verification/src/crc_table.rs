//! The lookup table of the CRC-32 and the proof that each entry is what eight
//! shifts of the register by the polynomial give.

use vstd::prelude::*;

verus! {

/// One shift of the CRC register: the bit that falls out decides whether the
/// reflected IEEE polynomial is added.
pub open spec fn crc_shift(c: u32) -> u32 {
    if c & 1 == 1 {
        (c >> 1) ^ 0xEDB8_8320u32
    } else {
        c >> 1
    }
}

/// Eight shifts: the register has taken in one byte.
pub open spec fn crc_shift8(c: u32) -> u32 {
    crc_shift(crc_shift(crc_shift(crc_shift(crc_shift(crc_shift(crc_shift(crc_shift(c))))))))
}

/// `CRC_TAB[i]` is the register after eight shifts of `i`.
pub const CRC_TAB: [u32; 256] = [
    0x00000000, 0x77073096, 0xee0e612c, 0x990951ba, 0x076dc419, 0x706af48f, 0xe963a535, 0x9e6495a3,
    0x0edb8832, 0x79dcb8a4, 0xe0d5e91e, 0x97d2d988, 0x09b64c2b, 0x7eb17cbd, 0xe7b82d07, 0x90bf1d91,
    0x1db71064, 0x6ab020f2, 0xf3b97148, 0x84be41de, 0x1adad47d, 0x6ddde4eb, 0xf4d4b551, 0x83d385c7,
    0x136c9856, 0x646ba8c0, 0xfd62f97a, 0x8a65c9ec, 0x14015c4f, 0x63066cd9, 0xfa0f3d63, 0x8d080df5,
    0x3b6e20c8, 0x4c69105e, 0xd56041e4, 0xa2677172, 0x3c03e4d1, 0x4b04d447, 0xd20d85fd, 0xa50ab56b,
    0x35b5a8fa, 0x42b2986c, 0xdbbbc9d6, 0xacbcf940, 0x32d86ce3, 0x45df5c75, 0xdcd60dcf, 0xabd13d59,
    0x26d930ac, 0x51de003a, 0xc8d75180, 0xbfd06116, 0x21b4f4b5, 0x56b3c423, 0xcfba9599, 0xb8bda50f,
    0x2802b89e, 0x5f058808, 0xc60cd9b2, 0xb10be924, 0x2f6f7c87, 0x58684c11, 0xc1611dab, 0xb6662d3d,
    0x76dc4190, 0x01db7106, 0x98d220bc, 0xefd5102a, 0x71b18589, 0x06b6b51f, 0x9fbfe4a5, 0xe8b8d433,
    0x7807c9a2, 0x0f00f934, 0x9609a88e, 0xe10e9818, 0x7f6a0dbb, 0x086d3d2d, 0x91646c97, 0xe6635c01,
    0x6b6b51f4, 0x1c6c6162, 0x856530d8, 0xf262004e, 0x6c0695ed, 0x1b01a57b, 0x8208f4c1, 0xf50fc457,
    0x65b0d9c6, 0x12b7e950, 0x8bbeb8ea, 0xfcb9887c, 0x62dd1ddf, 0x15da2d49, 0x8cd37cf3, 0xfbd44c65,
    0x4db26158, 0x3ab551ce, 0xa3bc0074, 0xd4bb30e2, 0x4adfa541, 0x3dd895d7, 0xa4d1c46d, 0xd3d6f4fb,
    0x4369e96a, 0x346ed9fc, 0xad678846, 0xda60b8d0, 0x44042d73, 0x33031de5, 0xaa0a4c5f, 0xdd0d7cc9,
    0x5005713c, 0x270241aa, 0xbe0b1010, 0xc90c2086, 0x5768b525, 0x206f85b3, 0xb966d409, 0xce61e49f,
    0x5edef90e, 0x29d9c998, 0xb0d09822, 0xc7d7a8b4, 0x59b33d17, 0x2eb40d81, 0xb7bd5c3b, 0xc0ba6cad,
    0xedb88320, 0x9abfb3b6, 0x03b6e20c, 0x74b1d29a, 0xead54739, 0x9dd277af, 0x04db2615, 0x73dc1683,
    0xe3630b12, 0x94643b84, 0x0d6d6a3e, 0x7a6a5aa8, 0xe40ecf0b, 0x9309ff9d, 0x0a00ae27, 0x7d079eb1,
    0xf00f9344, 0x8708a3d2, 0x1e01f268, 0x6906c2fe, 0xf762575d, 0x806567cb, 0x196c3671, 0x6e6b06e7,
    0xfed41b76, 0x89d32be0, 0x10da7a5a, 0x67dd4acc, 0xf9b9df6f, 0x8ebeeff9, 0x17b7be43, 0x60b08ed5,
    0xd6d6a3e8, 0xa1d1937e, 0x38d8c2c4, 0x4fdff252, 0xd1bb67f1, 0xa6bc5767, 0x3fb506dd, 0x48b2364b,
    0xd80d2bda, 0xaf0a1b4c, 0x36034af6, 0x41047a60, 0xdf60efc3, 0xa867df55, 0x316e8eef, 0x4669be79,
    0xcb61b38c, 0xbc66831a, 0x256fd2a0, 0x5268e236, 0xcc0c7795, 0xbb0b4703, 0x220216b9, 0x5505262f,
    0xc5ba3bbe, 0xb2bd0b28, 0x2bb45a92, 0x5cb36a04, 0xc2d7ffa7, 0xb5d0cf31, 0x2cd99e8b, 0x5bdeae1d,
    0x9b64c2b0, 0xec63f226, 0x756aa39c, 0x026d930a, 0x9c0906a9, 0xeb0e363f, 0x72076785, 0x05005713,
    0x95bf4a82, 0xe2b87a14, 0x7bb12bae, 0x0cb61b38, 0x92d28e9b, 0xe5d5be0d, 0x7cdcefb7, 0x0bdbdf21,
    0x86d3d2d4, 0xf1d4e242, 0x68ddb3f8, 0x1fda836e, 0x81be16cd, 0xf6b9265b, 0x6fb077e1, 0x18b74777,
    0x88085ae6, 0xff0f6a70, 0x66063bca, 0x11010b5c, 0x8f659eff, 0xf862ae69, 0x616bffd3, 0x166ccf45,
    0xa00ae278, 0xd70dd2ee, 0x4e048354, 0x3903b3c2, 0xa7672661, 0xd06016f7, 0x4969474d, 0x3e6e77db,
    0xaed16a4a, 0xd9d65adc, 0x40df0b66, 0x37d83bf0, 0xa9bcae53, 0xdebb9ec5, 0x47b2cf7f, 0x30b5ffe9,
    0xbdbdf21c, 0xcabac28a, 0x53b39330, 0x24b4a3a6, 0xbad03605, 0xcdd70693, 0x54de5729, 0x23d967bf,
    0xb3667a2e, 0xc4614ab8, 0x5d681b02, 0x2a6f2b94, 0xb40bbe37, 0xc30c8ea1, 0x5a05df1b, 0x2d02ef8d,
];

proof fn lemma_rows_from_00(i: int)
    requires
        0x00 <= i <= 0x3f,
    ensures
        CRC_TAB@[i] == crc_shift8(i as u32),
{
    assert({
        &&& crc_shift8(0x00) == 0x00000000
        &&& crc_shift8(0x01) == 0x77073096
        &&& crc_shift8(0x02) == 0xee0e612c
        &&& crc_shift8(0x03) == 0x990951ba
        &&& crc_shift8(0x04) == 0x076dc419
        &&& crc_shift8(0x05) == 0x706af48f
        &&& crc_shift8(0x06) == 0xe963a535
        &&& crc_shift8(0x07) == 0x9e6495a3
        &&& crc_shift8(0x08) == 0x0edb8832
        &&& crc_shift8(0x09) == 0x79dcb8a4
        &&& crc_shift8(0x0a) == 0xe0d5e91e
        &&& crc_shift8(0x0b) == 0x97d2d988
        &&& crc_shift8(0x0c) == 0x09b64c2b
        &&& crc_shift8(0x0d) == 0x7eb17cbd
        &&& crc_shift8(0x0e) == 0xe7b82d07
        &&& crc_shift8(0x0f) == 0x90bf1d91
        &&& crc_shift8(0x10) == 0x1db71064
        &&& crc_shift8(0x11) == 0x6ab020f2
        &&& crc_shift8(0x12) == 0xf3b97148
        &&& crc_shift8(0x13) == 0x84be41de
        &&& crc_shift8(0x14) == 0x1adad47d
        &&& crc_shift8(0x15) == 0x6ddde4eb
        &&& crc_shift8(0x16) == 0xf4d4b551
        &&& crc_shift8(0x17) == 0x83d385c7
        &&& crc_shift8(0x18) == 0x136c9856
        &&& crc_shift8(0x19) == 0x646ba8c0
        &&& crc_shift8(0x1a) == 0xfd62f97a
        &&& crc_shift8(0x1b) == 0x8a65c9ec
        &&& crc_shift8(0x1c) == 0x14015c4f
        &&& crc_shift8(0x1d) == 0x63066cd9
        &&& crc_shift8(0x1e) == 0xfa0f3d63
        &&& crc_shift8(0x1f) == 0x8d080df5
        &&& crc_shift8(0x20) == 0x3b6e20c8
        &&& crc_shift8(0x21) == 0x4c69105e
        &&& crc_shift8(0x22) == 0xd56041e4
        &&& crc_shift8(0x23) == 0xa2677172
        &&& crc_shift8(0x24) == 0x3c03e4d1
        &&& crc_shift8(0x25) == 0x4b04d447
        &&& crc_shift8(0x26) == 0xd20d85fd
        &&& crc_shift8(0x27) == 0xa50ab56b
        &&& crc_shift8(0x28) == 0x35b5a8fa
        &&& crc_shift8(0x29) == 0x42b2986c
        &&& crc_shift8(0x2a) == 0xdbbbc9d6
        &&& crc_shift8(0x2b) == 0xacbcf940
        &&& crc_shift8(0x2c) == 0x32d86ce3
        &&& crc_shift8(0x2d) == 0x45df5c75
        &&& crc_shift8(0x2e) == 0xdcd60dcf
        &&& crc_shift8(0x2f) == 0xabd13d59
        &&& crc_shift8(0x30) == 0x26d930ac
        &&& crc_shift8(0x31) == 0x51de003a
        &&& crc_shift8(0x32) == 0xc8d75180
        &&& crc_shift8(0x33) == 0xbfd06116
        &&& crc_shift8(0x34) == 0x21b4f4b5
        &&& crc_shift8(0x35) == 0x56b3c423
        &&& crc_shift8(0x36) == 0xcfba9599
        &&& crc_shift8(0x37) == 0xb8bda50f
        &&& crc_shift8(0x38) == 0x2802b89e
        &&& crc_shift8(0x39) == 0x5f058808
        &&& crc_shift8(0x3a) == 0xc60cd9b2
        &&& crc_shift8(0x3b) == 0xb10be924
        &&& crc_shift8(0x3c) == 0x2f6f7c87
        &&& crc_shift8(0x3d) == 0x58684c11
        &&& crc_shift8(0x3e) == 0xc1611dab
        &&& crc_shift8(0x3f) == 0xb6662d3d
    }) by (bit_vector);
}

proof fn lemma_rows_from_40(i: int)
    requires
        0x40 <= i <= 0x7f,
    ensures
        CRC_TAB@[i] == crc_shift8(i as u32),
{
    assert({
        &&& crc_shift8(0x40) == 0x76dc4190
        &&& crc_shift8(0x41) == 0x01db7106
        &&& crc_shift8(0x42) == 0x98d220bc
        &&& crc_shift8(0x43) == 0xefd5102a
        &&& crc_shift8(0x44) == 0x71b18589
        &&& crc_shift8(0x45) == 0x06b6b51f
        &&& crc_shift8(0x46) == 0x9fbfe4a5
        &&& crc_shift8(0x47) == 0xe8b8d433
        &&& crc_shift8(0x48) == 0x7807c9a2
        &&& crc_shift8(0x49) == 0x0f00f934
        &&& crc_shift8(0x4a) == 0x9609a88e
        &&& crc_shift8(0x4b) == 0xe10e9818
        &&& crc_shift8(0x4c) == 0x7f6a0dbb
        &&& crc_shift8(0x4d) == 0x086d3d2d
        &&& crc_shift8(0x4e) == 0x91646c97
        &&& crc_shift8(0x4f) == 0xe6635c01
        &&& crc_shift8(0x50) == 0x6b6b51f4
        &&& crc_shift8(0x51) == 0x1c6c6162
        &&& crc_shift8(0x52) == 0x856530d8
        &&& crc_shift8(0x53) == 0xf262004e
        &&& crc_shift8(0x54) == 0x6c0695ed
        &&& crc_shift8(0x55) == 0x1b01a57b
        &&& crc_shift8(0x56) == 0x8208f4c1
        &&& crc_shift8(0x57) == 0xf50fc457
        &&& crc_shift8(0x58) == 0x65b0d9c6
        &&& crc_shift8(0x59) == 0x12b7e950
        &&& crc_shift8(0x5a) == 0x8bbeb8ea
        &&& crc_shift8(0x5b) == 0xfcb9887c
        &&& crc_shift8(0x5c) == 0x62dd1ddf
        &&& crc_shift8(0x5d) == 0x15da2d49
        &&& crc_shift8(0x5e) == 0x8cd37cf3
        &&& crc_shift8(0x5f) == 0xfbd44c65
        &&& crc_shift8(0x60) == 0x4db26158
        &&& crc_shift8(0x61) == 0x3ab551ce
        &&& crc_shift8(0x62) == 0xa3bc0074
        &&& crc_shift8(0x63) == 0xd4bb30e2
        &&& crc_shift8(0x64) == 0x4adfa541
        &&& crc_shift8(0x65) == 0x3dd895d7
        &&& crc_shift8(0x66) == 0xa4d1c46d
        &&& crc_shift8(0x67) == 0xd3d6f4fb
        &&& crc_shift8(0x68) == 0x4369e96a
        &&& crc_shift8(0x69) == 0x346ed9fc
        &&& crc_shift8(0x6a) == 0xad678846
        &&& crc_shift8(0x6b) == 0xda60b8d0
        &&& crc_shift8(0x6c) == 0x44042d73
        &&& crc_shift8(0x6d) == 0x33031de5
        &&& crc_shift8(0x6e) == 0xaa0a4c5f
        &&& crc_shift8(0x6f) == 0xdd0d7cc9
        &&& crc_shift8(0x70) == 0x5005713c
        &&& crc_shift8(0x71) == 0x270241aa
        &&& crc_shift8(0x72) == 0xbe0b1010
        &&& crc_shift8(0x73) == 0xc90c2086
        &&& crc_shift8(0x74) == 0x5768b525
        &&& crc_shift8(0x75) == 0x206f85b3
        &&& crc_shift8(0x76) == 0xb966d409
        &&& crc_shift8(0x77) == 0xce61e49f
        &&& crc_shift8(0x78) == 0x5edef90e
        &&& crc_shift8(0x79) == 0x29d9c998
        &&& crc_shift8(0x7a) == 0xb0d09822
        &&& crc_shift8(0x7b) == 0xc7d7a8b4
        &&& crc_shift8(0x7c) == 0x59b33d17
        &&& crc_shift8(0x7d) == 0x2eb40d81
        &&& crc_shift8(0x7e) == 0xb7bd5c3b
        &&& crc_shift8(0x7f) == 0xc0ba6cad
    }) by (bit_vector);
}

proof fn lemma_rows_from_80(i: int)
    requires
        0x80 <= i <= 0xbf,
    ensures
        CRC_TAB@[i] == crc_shift8(i as u32),
{
    assert({
        &&& crc_shift8(0x80) == 0xedb88320
        &&& crc_shift8(0x81) == 0x9abfb3b6
        &&& crc_shift8(0x82) == 0x03b6e20c
        &&& crc_shift8(0x83) == 0x74b1d29a
        &&& crc_shift8(0x84) == 0xead54739
        &&& crc_shift8(0x85) == 0x9dd277af
        &&& crc_shift8(0x86) == 0x04db2615
        &&& crc_shift8(0x87) == 0x73dc1683
        &&& crc_shift8(0x88) == 0xe3630b12
        &&& crc_shift8(0x89) == 0x94643b84
        &&& crc_shift8(0x8a) == 0x0d6d6a3e
        &&& crc_shift8(0x8b) == 0x7a6a5aa8
        &&& crc_shift8(0x8c) == 0xe40ecf0b
        &&& crc_shift8(0x8d) == 0x9309ff9d
        &&& crc_shift8(0x8e) == 0x0a00ae27
        &&& crc_shift8(0x8f) == 0x7d079eb1
        &&& crc_shift8(0x90) == 0xf00f9344
        &&& crc_shift8(0x91) == 0x8708a3d2
        &&& crc_shift8(0x92) == 0x1e01f268
        &&& crc_shift8(0x93) == 0x6906c2fe
        &&& crc_shift8(0x94) == 0xf762575d
        &&& crc_shift8(0x95) == 0x806567cb
        &&& crc_shift8(0x96) == 0x196c3671
        &&& crc_shift8(0x97) == 0x6e6b06e7
        &&& crc_shift8(0x98) == 0xfed41b76
        &&& crc_shift8(0x99) == 0x89d32be0
        &&& crc_shift8(0x9a) == 0x10da7a5a
        &&& crc_shift8(0x9b) == 0x67dd4acc
        &&& crc_shift8(0x9c) == 0xf9b9df6f
        &&& crc_shift8(0x9d) == 0x8ebeeff9
        &&& crc_shift8(0x9e) == 0x17b7be43
        &&& crc_shift8(0x9f) == 0x60b08ed5
        &&& crc_shift8(0xa0) == 0xd6d6a3e8
        &&& crc_shift8(0xa1) == 0xa1d1937e
        &&& crc_shift8(0xa2) == 0x38d8c2c4
        &&& crc_shift8(0xa3) == 0x4fdff252
        &&& crc_shift8(0xa4) == 0xd1bb67f1
        &&& crc_shift8(0xa5) == 0xa6bc5767
        &&& crc_shift8(0xa6) == 0x3fb506dd
        &&& crc_shift8(0xa7) == 0x48b2364b
        &&& crc_shift8(0xa8) == 0xd80d2bda
        &&& crc_shift8(0xa9) == 0xaf0a1b4c
        &&& crc_shift8(0xaa) == 0x36034af6
        &&& crc_shift8(0xab) == 0x41047a60
        &&& crc_shift8(0xac) == 0xdf60efc3
        &&& crc_shift8(0xad) == 0xa867df55
        &&& crc_shift8(0xae) == 0x316e8eef
        &&& crc_shift8(0xaf) == 0x4669be79
        &&& crc_shift8(0xb0) == 0xcb61b38c
        &&& crc_shift8(0xb1) == 0xbc66831a
        &&& crc_shift8(0xb2) == 0x256fd2a0
        &&& crc_shift8(0xb3) == 0x5268e236
        &&& crc_shift8(0xb4) == 0xcc0c7795
        &&& crc_shift8(0xb5) == 0xbb0b4703
        &&& crc_shift8(0xb6) == 0x220216b9
        &&& crc_shift8(0xb7) == 0x5505262f
        &&& crc_shift8(0xb8) == 0xc5ba3bbe
        &&& crc_shift8(0xb9) == 0xb2bd0b28
        &&& crc_shift8(0xba) == 0x2bb45a92
        &&& crc_shift8(0xbb) == 0x5cb36a04
        &&& crc_shift8(0xbc) == 0xc2d7ffa7
        &&& crc_shift8(0xbd) == 0xb5d0cf31
        &&& crc_shift8(0xbe) == 0x2cd99e8b
        &&& crc_shift8(0xbf) == 0x5bdeae1d
    }) by (bit_vector);
}

proof fn lemma_rows_from_c0(i: int)
    requires
        0xc0 <= i <= 0xff,
    ensures
        CRC_TAB@[i] == crc_shift8(i as u32),
{
    assert({
        &&& crc_shift8(0xc0) == 0x9b64c2b0
        &&& crc_shift8(0xc1) == 0xec63f226
        &&& crc_shift8(0xc2) == 0x756aa39c
        &&& crc_shift8(0xc3) == 0x026d930a
        &&& crc_shift8(0xc4) == 0x9c0906a9
        &&& crc_shift8(0xc5) == 0xeb0e363f
        &&& crc_shift8(0xc6) == 0x72076785
        &&& crc_shift8(0xc7) == 0x05005713
        &&& crc_shift8(0xc8) == 0x95bf4a82
        &&& crc_shift8(0xc9) == 0xe2b87a14
        &&& crc_shift8(0xca) == 0x7bb12bae
        &&& crc_shift8(0xcb) == 0x0cb61b38
        &&& crc_shift8(0xcc) == 0x92d28e9b
        &&& crc_shift8(0xcd) == 0xe5d5be0d
        &&& crc_shift8(0xce) == 0x7cdcefb7
        &&& crc_shift8(0xcf) == 0x0bdbdf21
        &&& crc_shift8(0xd0) == 0x86d3d2d4
        &&& crc_shift8(0xd1) == 0xf1d4e242
        &&& crc_shift8(0xd2) == 0x68ddb3f8
        &&& crc_shift8(0xd3) == 0x1fda836e
        &&& crc_shift8(0xd4) == 0x81be16cd
        &&& crc_shift8(0xd5) == 0xf6b9265b
        &&& crc_shift8(0xd6) == 0x6fb077e1
        &&& crc_shift8(0xd7) == 0x18b74777
        &&& crc_shift8(0xd8) == 0x88085ae6
        &&& crc_shift8(0xd9) == 0xff0f6a70
        &&& crc_shift8(0xda) == 0x66063bca
        &&& crc_shift8(0xdb) == 0x11010b5c
        &&& crc_shift8(0xdc) == 0x8f659eff
        &&& crc_shift8(0xdd) == 0xf862ae69
        &&& crc_shift8(0xde) == 0x616bffd3
        &&& crc_shift8(0xdf) == 0x166ccf45
        &&& crc_shift8(0xe0) == 0xa00ae278
        &&& crc_shift8(0xe1) == 0xd70dd2ee
        &&& crc_shift8(0xe2) == 0x4e048354
        &&& crc_shift8(0xe3) == 0x3903b3c2
        &&& crc_shift8(0xe4) == 0xa7672661
        &&& crc_shift8(0xe5) == 0xd06016f7
        &&& crc_shift8(0xe6) == 0x4969474d
        &&& crc_shift8(0xe7) == 0x3e6e77db
        &&& crc_shift8(0xe8) == 0xaed16a4a
        &&& crc_shift8(0xe9) == 0xd9d65adc
        &&& crc_shift8(0xea) == 0x40df0b66
        &&& crc_shift8(0xeb) == 0x37d83bf0
        &&& crc_shift8(0xec) == 0xa9bcae53
        &&& crc_shift8(0xed) == 0xdebb9ec5
        &&& crc_shift8(0xee) == 0x47b2cf7f
        &&& crc_shift8(0xef) == 0x30b5ffe9
        &&& crc_shift8(0xf0) == 0xbdbdf21c
        &&& crc_shift8(0xf1) == 0xcabac28a
        &&& crc_shift8(0xf2) == 0x53b39330
        &&& crc_shift8(0xf3) == 0x24b4a3a6
        &&& crc_shift8(0xf4) == 0xbad03605
        &&& crc_shift8(0xf5) == 0xcdd70693
        &&& crc_shift8(0xf6) == 0x54de5729
        &&& crc_shift8(0xf7) == 0x23d967bf
        &&& crc_shift8(0xf8) == 0xb3667a2e
        &&& crc_shift8(0xf9) == 0xc4614ab8
        &&& crc_shift8(0xfa) == 0x5d681b02
        &&& crc_shift8(0xfb) == 0x2a6f2b94
        &&& crc_shift8(0xfc) == 0xb40bbe37
        &&& crc_shift8(0xfd) == 0xc30c8ea1
        &&& crc_shift8(0xfe) == 0x5a05df1b
        &&& crc_shift8(0xff) == 0x2d02ef8d
    }) by (bit_vector);
}

/// Every entry of the table is the eightfold shift of its index.
pub proof fn lemma_crc_tab(i: int)
    requires
        0 <= i < 256,
    ensures
        CRC_TAB@[i] == crc_shift8(i as u32),
{
    if i < 0x40 {
        lemma_rows_from_00(i);
    } else if i < 0x80 {
        lemma_rows_from_40(i);
    } else if i < 0xc0 {
        lemma_rows_from_80(i);
    } else {
        lemma_rows_from_c0(i);
    }
}

/// Eight shifts act on the low byte through the table and move the rest down.
pub proof fn lemma_crc_split(x: u32)
    ensures
        crc_shift8(x) == crc_shift8(x & 0xff) ^ (x >> 8),
{
    assert(crc_shift8(x) == crc_shift8(x & 0xff) ^ (x >> 8)) by (bit_vector);
}

/// The sum is linear: eight steps on the difference of two registers give the
/// difference of eight steps on each.
pub proof fn law_crc_is_linear(a: u32, b: u32)
    ensures
        crc_shift8(a ^ b) == crc_shift8(a) ^ crc_shift8(b),
        crc_shift8(0) == 0,
{
    let a0 = a;
    let b0 = b;
    let a1 = crc_shift(a0);
    let b1 = crc_shift(b0);
    lemma_shift_is_linear(a0, b0);
    let a2 = crc_shift(a1);
    let b2 = crc_shift(b1);
    lemma_shift_is_linear(a1, b1);
    let a3 = crc_shift(a2);
    let b3 = crc_shift(b2);
    lemma_shift_is_linear(a2, b2);
    let a4 = crc_shift(a3);
    let b4 = crc_shift(b3);
    lemma_shift_is_linear(a3, b3);
    let a5 = crc_shift(a4);
    let b5 = crc_shift(b4);
    lemma_shift_is_linear(a4, b4);
    let a6 = crc_shift(a5);
    let b6 = crc_shift(b5);
    lemma_shift_is_linear(a5, b5);
    let a7 = crc_shift(a6);
    let b7 = crc_shift(b6);
    lemma_shift_is_linear(a6, b6);
    let a8 = crc_shift(a7);
    let b8 = crc_shift(b7);
    lemma_shift_is_linear(a7, b7);
    lemma_shift_is_linear(0, 0);
}

proof fn lemma_shift_is_linear(a: u32, b: u32)
    ensures
        crc_shift(a ^ b) == crc_shift(a) ^ crc_shift(b),
        crc_shift(0) == 0,
{
    assert({
        &&& crc_shift(a ^ b) == crc_shift(a) ^ crc_shift(b)
        &&& crc_shift(0) == 0
    }) by (bit_vector);
}

/// One step on a register divides by the polynomial of IEEE CRC-32, lowest bit
/// first: the register is shifted, and the polynomial taken off if a bit fell
/// out.
pub proof fn law_one_step_divides(c: u32)
    ensures
        c % 2 == 0 ==> crc_shift(c) == c / 2,
        c % 2 == 1 ==> crc_shift(c) == (c / 2) ^ 0xEDB8_8320,
{
    assert({
        &&& c % 2 == 0 ==> crc_shift(c) == c / 2
        &&& c % 2 == 1 ==> crc_shift(c) == (c / 2) ^ 0xEDB8_8320
    }) by (bit_vector);
}

} // verus!
