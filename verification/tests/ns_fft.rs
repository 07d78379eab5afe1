use sonora_ns::config::{FFT_SIZE, FFT_SIZE_BY_2_PLUS_1};
use sonora_ns::ns_fft::{
    imag_bin_position, pack_spectrum, real_bin_position, unpack_spectrum, FFTPackedHelper,
};

#[test]
fn bin_positions() {
    assert_eq!(real_bin_position(0), 0);
    assert_eq!(real_bin_position(1), 2);
    assert_eq!(real_bin_position(127), 254);
    assert_eq!(real_bin_position(128), 1);
    assert_eq!(imag_bin_position(0), None);
    assert_eq!(imag_bin_position(1), Some(3));
    assert_eq!(imag_bin_position(127), Some(255));
    assert_eq!(imag_bin_position(128), None);
}

#[test]
fn packed_helper_reads_bins() {
    let mut ray = [0u32; FFT_SIZE];
    for (i, v) in ray.iter_mut().enumerate() {
        *v = 1000 + i as u32;
    }
    let helper = FFTPackedHelper::new(&ray);
    let re = helper.real_part();
    let im = helper.imag();
    assert_eq!(*re.index(0), 1000);
    assert_eq!(*re.index(5), 1010);
    assert_eq!(*re.index(128), 1001);
    assert_eq!(im.index(0), None);
    assert_eq!(im.index(5), Some(&1011));
    assert_eq!(im.index(128), None);
}

#[test]
fn unpack_impulse_spectrum() {
    // The packed spectrum of a unit impulse: every bin is 1 + 0i.
    let mut packed = [0.0_f32; FFT_SIZE];
    packed[0] = 1.0;
    packed[1] = 1.0;
    for k in 1..FFT_SIZE_BY_2_PLUS_1 - 1 {
        packed[2 * k] = 1.0;
    }
    let mut real = [9.0_f32; FFT_SIZE];
    let mut imag = [9.0_f32; FFT_SIZE];
    unpack_spectrum(&packed, 0.0, &mut real, &mut imag);
    for k in 0..FFT_SIZE_BY_2_PLUS_1 {
        assert_eq!(real[k], 1.0);
        assert_eq!(imag[k], 0.0);
    }
    // Entries past the last bin are left as they were.
    for k in FFT_SIZE_BY_2_PLUS_1..FFT_SIZE {
        assert_eq!(real[k], 9.0);
        assert_eq!(imag[k], 9.0);
    }
}

#[test]
fn unpack_moves_each_value() {
    let mut packed = [0i32; FFT_SIZE];
    for (i, v) in packed.iter_mut().enumerate() {
        *v = i as i32 + 1;
    }
    let mut real = [0i32; FFT_SIZE];
    let mut imag = [0i32; FFT_SIZE];
    unpack_spectrum(&packed, -7, &mut real, &mut imag);
    assert_eq!(real[0], 1);
    assert_eq!(real[128], 2);
    assert_eq!(imag[0], -7);
    assert_eq!(imag[128], -7);
    for k in 1..128 {
        assert_eq!(real[k], 2 * k as i32 + 1);
        assert_eq!(imag[k], 2 * k as i32 + 2);
    }
}

#[test]
fn pack_places_each_value() {
    let real: Vec<i32> = (0..129).map(|k| 100 + k).collect();
    let imag: Vec<i32> = (0..128).map(|k| -k).collect();
    let mut packed = [0i32; FFT_SIZE];
    pack_spectrum(&real, &imag, &mut packed);
    assert_eq!(packed[0], 100);
    assert_eq!(packed[1], 228);
    for k in 1..128 {
        assert_eq!(packed[2 * k], 100 + k as i32);
        assert_eq!(packed[2 * k + 1], -(k as i32));
    }
}

#[test]
fn pack_after_unpack_roundtrip() {
    let mut packed = [0u64; FFT_SIZE];
    for (i, v) in packed.iter_mut().enumerate() {
        *v = (i as u64 * 7919) % 1013;
    }
    let mut real = [0u64; FFT_SIZE];
    let mut imag = [0u64; FFT_SIZE];
    unpack_spectrum(&packed, 0, &mut real, &mut imag);
    let mut repacked = [1u64; FFT_SIZE];
    pack_spectrum(&real, &imag, &mut repacked);
    assert_eq!(repacked, packed);
}

#[test]
fn unpack_after_pack_roundtrip() {
    let real: Vec<i16> = (0..129).map(|k| 3 * k - 50).collect();
    let imag: Vec<i16> = (0..129).map(|k| 11 - k).collect();
    let mut packed = [0i16; FFT_SIZE];
    pack_spectrum(&real, &imag, &mut packed);
    let mut real2 = [0i16; FFT_SIZE];
    let mut imag2 = [0i16; FFT_SIZE];
    unpack_spectrum(&packed, 0, &mut real2, &mut imag2);
    assert_eq!(&real2[..129], &real[..]);
    assert_eq!(imag2[0], 0);
    assert_eq!(imag2[128], 0);
    assert_eq!(&imag2[1..128], &imag[1..128]);
}
