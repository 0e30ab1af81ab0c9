//! The typed tags of a local set are the ones the tag registry names:
//! each scaled field travels under the wire number the registry gives its
//! name, in both directions.

use vstd::prelude::*;
use crate::klv::ber::field_value;
use crate::klv::st0601::{
    apply_item, opt_i16, opt_i32, opt_u16, opt_u32, opt_u8, scaled_signed, scaled_slot, scaled_tag,
    scaled_width, with_scaled, DecodeState, St0601,
};
use crate::klv::tags::{lemma_names_distinct, table_name, table_number};

verus! {

/// The raw value of the typed field of `s` called `name`, as an integer.
pub open spec fn named_field(s: St0601, name: Seq<char>) -> Option<int> {
    if name == "platform_heading"@ {
        opt_u16(s.platform_heading)
    } else if name == "platform_pitch"@ {
        opt_i16(s.platform_pitch)
    } else if name == "platform_roll"@ {
        opt_i16(s.platform_roll)
    } else if name == "platform_true_airspeed"@ {
        opt_u8(s.platform_true_airspeed)
    } else if name == "sensor_latitude"@ {
        opt_i32(s.sensor_latitude)
    } else if name == "sensor_longitude"@ {
        opt_i32(s.sensor_longitude)
    } else if name == "sensor_true_altitude"@ {
        opt_u16(s.sensor_true_altitude)
    } else if name == "sensor_horizontal_fov"@ {
        opt_u16(s.sensor_horizontal_fov)
    } else if name == "sensor_vertical_fov"@ {
        opt_u16(s.sensor_vertical_fov)
    } else if name == "sensor_relative_azimuth"@ {
        opt_u32(s.sensor_relative_azimuth)
    } else if name == "sensor_relative_elevation"@ {
        opt_i32(s.sensor_relative_elevation)
    } else if name == "sensor_relative_roll"@ {
        opt_u32(s.sensor_relative_roll)
    } else if name == "slant_range"@ {
        opt_u32(s.slant_range)
    } else if name == "target_width"@ {
        opt_u16(s.target_width)
    } else if name == "frame_center_latitude"@ {
        opt_i32(s.frame_center_latitude)
    } else if name == "frame_center_longitude"@ {
        opt_i32(s.frame_center_longitude)
    } else if name == "frame_center_elevation"@ {
        opt_u16(s.frame_center_elevation)
    } else if name == "target_location_latitude"@ {
        opt_i32(s.target_location_latitude)
    } else if name == "target_location_longitude"@ {
        opt_i32(s.target_location_longitude)
    } else if name == "target_location_elevation"@ {
        opt_u16(s.target_location_elevation)
    } else {
        None
    }
}

#[verifier::rlimit(50)]
proof fn lemma_field_of_entry(s: St0601, i: int)
    requires
        1 <= i <= 20,
    ensures
        s@.scaled[i - 1] == named_field(s, table_name(i)),
{
    if i == 1 {
        assert(s@.scaled[0] == named_field(s, table_name(1)));
    }
    if i == 2 {
        lemma_names_distinct(1, 2);
        assert(s@.scaled[1] == named_field(s, table_name(2)));
    }
    if i == 3 {
        lemma_names_distinct(1, 3);
        lemma_names_distinct(2, 3);
        assert(s@.scaled[2] == named_field(s, table_name(3)));
    }
    if i == 4 {
        lemma_names_distinct(1, 4);
        lemma_names_distinct(2, 4);
        lemma_names_distinct(3, 4);
        assert(s@.scaled[3] == named_field(s, table_name(4)));
    }
    if i == 5 {
        lemma_names_distinct(1, 5);
        lemma_names_distinct(2, 5);
        lemma_names_distinct(3, 5);
        lemma_names_distinct(4, 5);
        assert(s@.scaled[4] == named_field(s, table_name(5)));
    }
    if i == 6 {
        lemma_names_distinct(1, 6);
        lemma_names_distinct(2, 6);
        lemma_names_distinct(3, 6);
        lemma_names_distinct(4, 6);
        lemma_names_distinct(5, 6);
        assert(s@.scaled[5] == named_field(s, table_name(6)));
    }
    if i == 7 {
        lemma_names_distinct(1, 7);
        lemma_names_distinct(2, 7);
        lemma_names_distinct(3, 7);
        lemma_names_distinct(4, 7);
        lemma_names_distinct(5, 7);
        lemma_names_distinct(6, 7);
        assert(s@.scaled[6] == named_field(s, table_name(7)));
    }
    if i == 8 {
        lemma_names_distinct(1, 8);
        lemma_names_distinct(2, 8);
        lemma_names_distinct(3, 8);
        lemma_names_distinct(4, 8);
        lemma_names_distinct(5, 8);
        lemma_names_distinct(6, 8);
        lemma_names_distinct(7, 8);
        assert(s@.scaled[7] == named_field(s, table_name(8)));
    }
    if i == 9 {
        lemma_names_distinct(1, 9);
        lemma_names_distinct(2, 9);
        lemma_names_distinct(3, 9);
        lemma_names_distinct(4, 9);
        lemma_names_distinct(5, 9);
        lemma_names_distinct(6, 9);
        lemma_names_distinct(7, 9);
        lemma_names_distinct(8, 9);
        assert(s@.scaled[8] == named_field(s, table_name(9)));
    }
    if i == 10 {
        lemma_names_distinct(1, 10);
        lemma_names_distinct(2, 10);
        lemma_names_distinct(3, 10);
        lemma_names_distinct(4, 10);
        lemma_names_distinct(5, 10);
        lemma_names_distinct(6, 10);
        lemma_names_distinct(7, 10);
        lemma_names_distinct(8, 10);
        lemma_names_distinct(9, 10);
        assert(s@.scaled[9] == named_field(s, table_name(10)));
    }
    if i == 11 {
        lemma_names_distinct(1, 11);
        lemma_names_distinct(2, 11);
        lemma_names_distinct(3, 11);
        lemma_names_distinct(4, 11);
        lemma_names_distinct(5, 11);
        lemma_names_distinct(6, 11);
        lemma_names_distinct(7, 11);
        lemma_names_distinct(8, 11);
        lemma_names_distinct(9, 11);
        lemma_names_distinct(10, 11);
        assert(s@.scaled[10] == named_field(s, table_name(11)));
    }
    if i == 12 {
        lemma_names_distinct(1, 12);
        lemma_names_distinct(2, 12);
        lemma_names_distinct(3, 12);
        lemma_names_distinct(4, 12);
        lemma_names_distinct(5, 12);
        lemma_names_distinct(6, 12);
        lemma_names_distinct(7, 12);
        lemma_names_distinct(8, 12);
        lemma_names_distinct(9, 12);
        lemma_names_distinct(10, 12);
        lemma_names_distinct(11, 12);
        assert(s@.scaled[11] == named_field(s, table_name(12)));
    }
    if i == 13 {
        lemma_names_distinct(1, 13);
        lemma_names_distinct(2, 13);
        lemma_names_distinct(3, 13);
        lemma_names_distinct(4, 13);
        lemma_names_distinct(5, 13);
        lemma_names_distinct(6, 13);
        lemma_names_distinct(7, 13);
        lemma_names_distinct(8, 13);
        lemma_names_distinct(9, 13);
        lemma_names_distinct(10, 13);
        lemma_names_distinct(11, 13);
        lemma_names_distinct(12, 13);
        assert(s@.scaled[12] == named_field(s, table_name(13)));
    }
    if i == 14 {
        lemma_names_distinct(1, 14);
        lemma_names_distinct(2, 14);
        lemma_names_distinct(3, 14);
        lemma_names_distinct(4, 14);
        lemma_names_distinct(5, 14);
        lemma_names_distinct(6, 14);
        lemma_names_distinct(7, 14);
        lemma_names_distinct(8, 14);
        lemma_names_distinct(9, 14);
        lemma_names_distinct(10, 14);
        lemma_names_distinct(11, 14);
        lemma_names_distinct(12, 14);
        lemma_names_distinct(13, 14);
        assert(s@.scaled[13] == named_field(s, table_name(14)));
    }
    if i == 15 {
        lemma_names_distinct(1, 15);
        lemma_names_distinct(2, 15);
        lemma_names_distinct(3, 15);
        lemma_names_distinct(4, 15);
        lemma_names_distinct(5, 15);
        lemma_names_distinct(6, 15);
        lemma_names_distinct(7, 15);
        lemma_names_distinct(8, 15);
        lemma_names_distinct(9, 15);
        lemma_names_distinct(10, 15);
        lemma_names_distinct(11, 15);
        lemma_names_distinct(12, 15);
        lemma_names_distinct(13, 15);
        lemma_names_distinct(14, 15);
        assert(s@.scaled[14] == named_field(s, table_name(15)));
    }
    if i == 16 {
        lemma_names_distinct(1, 16);
        lemma_names_distinct(2, 16);
        lemma_names_distinct(3, 16);
        lemma_names_distinct(4, 16);
        lemma_names_distinct(5, 16);
        lemma_names_distinct(6, 16);
        lemma_names_distinct(7, 16);
        lemma_names_distinct(8, 16);
        lemma_names_distinct(9, 16);
        lemma_names_distinct(10, 16);
        lemma_names_distinct(11, 16);
        lemma_names_distinct(12, 16);
        lemma_names_distinct(13, 16);
        lemma_names_distinct(14, 16);
        lemma_names_distinct(15, 16);
        assert(s@.scaled[15] == named_field(s, table_name(16)));
    }
    if i == 17 {
        lemma_names_distinct(1, 17);
        lemma_names_distinct(2, 17);
        lemma_names_distinct(3, 17);
        lemma_names_distinct(4, 17);
        lemma_names_distinct(5, 17);
        lemma_names_distinct(6, 17);
        lemma_names_distinct(7, 17);
        lemma_names_distinct(8, 17);
        lemma_names_distinct(9, 17);
        lemma_names_distinct(10, 17);
        lemma_names_distinct(11, 17);
        lemma_names_distinct(12, 17);
        lemma_names_distinct(13, 17);
        lemma_names_distinct(14, 17);
        lemma_names_distinct(15, 17);
        lemma_names_distinct(16, 17);
        assert(s@.scaled[16] == named_field(s, table_name(17)));
    }
    if i == 18 {
        lemma_names_distinct(1, 18);
        lemma_names_distinct(2, 18);
        lemma_names_distinct(3, 18);
        lemma_names_distinct(4, 18);
        lemma_names_distinct(5, 18);
        lemma_names_distinct(6, 18);
        lemma_names_distinct(7, 18);
        lemma_names_distinct(8, 18);
        lemma_names_distinct(9, 18);
        lemma_names_distinct(10, 18);
        lemma_names_distinct(11, 18);
        lemma_names_distinct(12, 18);
        lemma_names_distinct(13, 18);
        lemma_names_distinct(14, 18);
        lemma_names_distinct(15, 18);
        lemma_names_distinct(16, 18);
        lemma_names_distinct(17, 18);
        assert(s@.scaled[17] == named_field(s, table_name(18)));
    }
    if i == 19 {
        lemma_names_distinct(1, 19);
        lemma_names_distinct(2, 19);
        lemma_names_distinct(3, 19);
        lemma_names_distinct(4, 19);
        lemma_names_distinct(5, 19);
        lemma_names_distinct(6, 19);
        lemma_names_distinct(7, 19);
        lemma_names_distinct(8, 19);
        lemma_names_distinct(9, 19);
        lemma_names_distinct(10, 19);
        lemma_names_distinct(11, 19);
        lemma_names_distinct(12, 19);
        lemma_names_distinct(13, 19);
        lemma_names_distinct(14, 19);
        lemma_names_distinct(15, 19);
        lemma_names_distinct(16, 19);
        lemma_names_distinct(17, 19);
        lemma_names_distinct(18, 19);
        assert(s@.scaled[18] == named_field(s, table_name(19)));
    }
    if i == 20 {
        lemma_names_distinct(1, 20);
        lemma_names_distinct(2, 20);
        lemma_names_distinct(3, 20);
        lemma_names_distinct(4, 20);
        lemma_names_distinct(5, 20);
        lemma_names_distinct(6, 20);
        lemma_names_distinct(7, 20);
        lemma_names_distinct(8, 20);
        lemma_names_distinct(9, 20);
        lemma_names_distinct(10, 20);
        lemma_names_distinct(11, 20);
        lemma_names_distinct(12, 20);
        lemma_names_distinct(13, 20);
        lemma_names_distinct(14, 20);
        lemma_names_distinct(15, 20);
        lemma_names_distinct(16, 20);
        lemma_names_distinct(17, 20);
        lemma_names_distinct(18, 20);
        lemma_names_distinct(19, 20);
        assert(s@.scaled[19] == named_field(s, table_name(20)));
    }
}

/// Each scaled field travels under the number the registry gives its name.
/// For every scaled registry entry (wire number `N`, name `tag_name(N)`):
/// the decoder's slot for `N` and the encoder's number for that slot agree
/// with the registry; that slot of a set's view is the field of that name;
/// and decoding an item `N` whose value has the slot's width stores the
/// value there. So tag 16 fills `sensor_horizontal_fov` and tag 17
/// `sensor_vertical_fov`, and the encoder writes each under its own number.
pub proof fn lemma_scaled_fields_follow_registry(s: St0601)
    ensures
        forall|i: int| 1 <= i <= 20 ==> #[trigger] scaled_slot(table_number(i)) == Some(i - 1),
        forall|i: int| 1 <= i <= 20 ==> #[trigger] scaled_tag(i - 1) == table_number(i),
        forall|i: int| 1 <= i <= 20 ==> #[trigger] s@.scaled[i - 1] == named_field(s, table_name(i)),
        forall|i: int, st: DecodeState, v: Seq<u8>, vs: int|
            1 <= i <= 20 && v.len() == scaled_width(i - 1) ==> #[trigger] apply_item(st, table_number(i), v, vs)
                == Ok::<DecodeState, crate::klv::error::Error>(
                DecodeState { model: with_scaled(st.model, i - 1, field_value(v, scaled_signed(i - 1))), ..st },
            ),
{
    assert forall|i: int| 1 <= i <= 20 implies #[trigger] s@.scaled[i - 1] == named_field(s, table_name(i)) by {
        lemma_field_of_entry(s, i);
    }
}

} // verus!
