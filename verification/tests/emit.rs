use arete_codegen::{ArgType, FfiGenerator, StructInfo, StructType, SystemInfo, SystemInputInfo};

fn direct(ident: &str, mutable: bool) -> SystemInputInfo {
    SystemInputInfo { ident: ident.to_string(), arg_type: ArgType::DataAccessDirect, mutable }
}

fn cell(ident: &str, mutable: bool) -> SystemInputInfo {
    SystemInputInfo { ident: ident.to_string(), arg_type: ArgType::DataAccessCell, mutable }
}

fn query(ident: &str, inputs: Vec<SystemInputInfo>, mutable: bool) -> SystemInputInfo {
    SystemInputInfo { ident: ident.to_string(), arg_type: ArgType::Query { inputs }, mutable }
}

fn declared(ident: &str, struct_type: StructType) -> StructInfo {
    StructInfo { ident: ident.to_string(), string_id: format!("game_module::{}", ident), struct_type }
}

fn routine(ident: &str, is_once: bool, inputs: Vec<SystemInputInfo>) -> SystemInfo {
    SystemInfo { ident: ident.to_string(), is_once, inputs }
}

fn rich() -> FfiGenerator {
    FfiGenerator {
        structs: vec![
            declared("Position", StructType::Component),
            declared("Velocity", StructType::Component),
            declared("Clock", StructType::Resource),
            declared("Settings", StructType::Resource),
            declared("Camera", StructType::Component),
        ],
        systems: vec![
            routine("Setup", true, vec![direct("Clock", true), cell("Settings", false)]),
            routine(
                "Move",
                false,
                vec![
                    direct("Position", true),
                    direct("Velocity", false),
                    query("query2", vec![direct("Position", false), direct("Transform", true)], false),
                    direct("Transform", true),
                ],
            ),
            routine("Idle", false, vec![]),
            routine(
                "Scan",
                false,
                vec![query("query0", vec![], true), query("query1", vec![direct("Color", false)], true)],
            ),
        ],
    }
}

fn empty() -> FfiGenerator {
    FfiGenerator::default()
}

#[test]
fn component_string_id_on_a_rich_catalogue() {
    assert_eq!(
        rich().gen_component_string_id(),
        [
            "extern \"C\" const char* component_string_id(size_t index) {\n",
            "    switch(index) {\n",
            "        case 0: return \"game_module::Position\";\n",
            "        case 1: return \"game_module::Velocity\";\n",
            "        case 2: return \"game_module::Clock\";\n",
            "        case 3: return \"game_module::Settings\";\n",
            "        case 4: return \"game_module::Camera\";\n",
            "        default: std::abort();\n",
            "    }\n",
            "}\n",
            "\n",
        ]
        .concat()
    );
}

#[test]
fn component_string_id_on_an_empty_catalogue() {
    assert_eq!(
        empty().gen_component_string_id(),
        [
            "extern \"C\" const char* component_string_id(size_t index) {\n",
            "    switch(index) {\n",
            "        default: std::abort();\n",
            "    }\n",
            "}\n",
            "\n",
        ]
        .concat()
    );
}

#[test]
fn component_size_on_a_rich_catalogue() {
    assert_eq!(
        rich().gen_component_size(),
        [
            "extern \"C\" size_t component_size(const char* string_id) {\n",
            "    if (std::strcmp(string_id, \"game_module::Position\") == 0) {\n",
            "        return sizeof(Position);\n",
            "    } else if (std::strcmp(string_id, \"game_module::Velocity\") == 0) {\n",
            "        return sizeof(Velocity);\n",
            "    } else if (std::strcmp(string_id, \"game_module::Clock\") == 0) {\n",
            "        return sizeof(Clock);\n",
            "    } else if (std::strcmp(string_id, \"game_module::Settings\") == 0) {\n",
            "        return sizeof(Settings);\n",
            "    } else if (std::strcmp(string_id, \"game_module::Camera\") == 0) {\n",
            "        return sizeof(Camera);\n",
            "    } else {\n",
            "        std::abort();\n",
            "    }\n",
            "}\n",
            "\n",
        ]
        .concat()
    );
}

#[test]
fn component_size_on_an_empty_catalogue() {
    assert_eq!(
        empty().gen_component_size(),
        [
            "extern \"C\" size_t component_size(const char* string_id) {\n",
            "    std::abort();\n",
            "}\n",
            "\n",
        ]
        .concat()
    );
}

#[test]
fn component_align_on_a_rich_catalogue() {
    assert_eq!(
        rich().gen_component_align(),
        [
            "extern \"C\" size_t component_align(const char* string_id) {\n",
            "    if (std::strcmp(string_id, \"game_module::Position\") == 0) {\n",
            "        return alignof(Position);\n",
            "    } else if (std::strcmp(string_id, \"game_module::Velocity\") == 0) {\n",
            "        return alignof(Velocity);\n",
            "    } else if (std::strcmp(string_id, \"game_module::Clock\") == 0) {\n",
            "        return alignof(Clock);\n",
            "    } else if (std::strcmp(string_id, \"game_module::Settings\") == 0) {\n",
            "        return alignof(Settings);\n",
            "    } else if (std::strcmp(string_id, \"game_module::Camera\") == 0) {\n",
            "        return alignof(Camera);\n",
            "    } else {\n",
            "        std::abort();\n",
            "    }\n",
            "}\n",
            "\n",
        ]
        .concat()
    );
}

#[test]
fn component_align_on_an_empty_catalogue() {
    assert_eq!(
        empty().gen_component_align(),
        [
            "extern \"C\" size_t component_align(const char* string_id) {\n",
            "    std::abort();\n",
            "}\n",
            "\n",
        ]
        .concat()
    );
}

#[test]
fn component_type_on_a_rich_catalogue() {
    assert_eq!(
        rich().gen_component_type(),
        [
            "extern \"C\" ComponentType component_type(const char* string_id) {\n",
            "    if (std::strcmp(string_id, \"game_module::Position\") == 0) {\n",
            "        static_assert(std::is_standard_layout_v<Position>);\n",
            "        static_assert(std::is_trivially_copyable_v<Position>);\n",
            "        return ComponentTypeComponent;\n",
            "    } else if (std::strcmp(string_id, \"game_module::Velocity\") == 0) {\n",
            "        static_assert(std::is_standard_layout_v<Velocity>);\n",
            "        static_assert(std::is_trivially_copyable_v<Velocity>);\n",
            "        return ComponentTypeComponent;\n",
            "    } else if (std::strcmp(string_id, \"game_module::Clock\") == 0) {\n",
            "        return ComponentTypeResource;\n",
            "    } else if (std::strcmp(string_id, \"game_module::Settings\") == 0) {\n",
            "        return ComponentTypeResource;\n",
            "    } else if (std::strcmp(string_id, \"game_module::Camera\") == 0) {\n",
            "        static_assert(std::is_standard_layout_v<Camera>);\n",
            "        static_assert(std::is_trivially_copyable_v<Camera>);\n",
            "        return ComponentTypeComponent;\n",
            "    } else {\n",
            "        std::abort();\n",
            "    }\n",
            "}\n",
            "\n",
        ]
        .concat()
    );
}

#[test]
fn component_type_on_an_empty_catalogue() {
    assert_eq!(
        empty().gen_component_type(),
        [
            "extern \"C\" ComponentType component_type(const char* string_id) {\n",
            "    std::abort();\n",
            "}\n",
            "\n",
        ]
        .concat()
    );
}

#[test]
fn set_component_ids_on_a_rich_catalogue() {
    assert_eq!(
        rich().gen_set_component_ids(),
        [
            "extern \"C\" void set_component_id(const char* string_id, ComponentId id) {\n",
            "    if (std::strcmp(string_id, \"game_module::Camera\") == 0) {\n",
            "        Component<Camera>::ID = id;\n",
            "    } else if (std::strcmp(string_id, \"game_module::Clock\") == 0) {\n",
            "        Component<Clock>::ID = id;\n",
            "    } else if (std::strcmp(string_id, \"arete_public::Color\") == 0) {\n",
            "        Component<Color>::ID = id;\n",
            "    } else if (std::strcmp(string_id, \"arete_public::DirectionalLight\") == 0) {\n",
            "        Component<DirectionalLight>::ID = id;\n",
            "    } else if (std::strcmp(string_id, \"arete_public::DynamicStaticMesh\") == 0) {\n",
            "        Component<DynamicStaticMesh>::ID = id;\n",
            "    } else if (std::strcmp(string_id, \"arete_public::PointLight\") == 0) {\n",
            "        Component<PointLight>::ID = id;\n",
            "    } else if (std::strcmp(string_id, \"game_module::Position\") == 0) {\n",
            "        Component<Position>::ID = id;\n",
            "    } else if (std::strcmp(string_id, \"game_module::Settings\") == 0) {\n",
            "        Component<Settings>::ID = id;\n",
            "    } else if (std::strcmp(string_id, \"arete_public::Transform\") == 0) {\n",
            "        Component<Transform>::ID = id;\n",
            "    } else if (std::strcmp(string_id, \"game_module::Velocity\") == 0) {\n",
            "        Component<Velocity>::ID = id;\n",
            "    }\n",
            "}\n",
            "\n",
        ]
        .concat()
    );
}

#[test]
fn set_component_ids_on_an_empty_catalogue() {
    assert_eq!(
        empty().gen_set_component_ids(),
        [
            "extern \"C\" void set_component_id(const char* string_id, ComponentId id) {\n",
            "    if (std::strcmp(string_id, \"arete_public::Camera\") == 0) {\n",
            "        Component<Camera>::ID = id;\n",
            "    } else if (std::strcmp(string_id, \"arete_public::Color\") == 0) {\n",
            "        Component<Color>::ID = id;\n",
            "    } else if (std::strcmp(string_id, \"arete_public::DirectionalLight\") == 0) {\n",
            "        Component<DirectionalLight>::ID = id;\n",
            "    } else if (std::strcmp(string_id, \"arete_public::DynamicStaticMesh\") == 0) {\n",
            "        Component<DynamicStaticMesh>::ID = id;\n",
            "    } else if (std::strcmp(string_id, \"arete_public::PointLight\") == 0) {\n",
            "        Component<PointLight>::ID = id;\n",
            "    } else if (std::strcmp(string_id, \"arete_public::Transform\") == 0) {\n",
            "        Component<Transform>::ID = id;\n",
            "    }\n",
            "}\n",
            "\n",
        ]
        .concat()
    );
}

#[test]
fn resource_init_on_a_rich_catalogue() {
    assert_eq!(
        rich().gen_resource_init(),
        [
            "extern \"C\" int32_t resource_init(const char* string_id, void* val) {\n",
            "    if (std::strcmp(string_id, \"game_module::Clock\") == 0) {\n",
            "        std::construct_at(static_cast<Clock*>(val));\n",
            "    } else if (std::strcmp(string_id, \"game_module::Settings\") == 0) {\n",
            "        std::construct_at(static_cast<Settings*>(val));\n",
            "    } else {\n",
            "        return 1;\n",
            "    }\n",
            "\n",
            "    return 0;\n",
            "}\n",
            "\n",
        ]
        .concat()
    );
}

#[test]
fn resource_init_on_an_empty_catalogue() {
    assert_eq!(
        empty().gen_resource_init(),
        [
            "extern \"C\" int32_t resource_init(const char* string_id, void* val) {\n",
            "    return 1;\n",
            "}\n",
            "\n",
        ]
        .concat()
    );
}

#[test]
fn system_fn_ffi_on_a_rich_catalogue() {
    assert_eq!(
        rich().gen_system_fn_ffi(),
        [
            "int32_t Setup_ffi(void** input) {\n",
            "    Setup(\n",
            "        *static_cast<Clock*>(input[0]),\n",
            "        *static_cast<const Settings*>(input[1])\n",
            "    );\n",
            "\n",
            "    return 0;\n",
            "}\n",
            "\n",
            "int32_t Move_ffi(void** input) {\n",
            "    Move(\n",
            "        *static_cast<Position*>(input[0]),\n",
            "        *static_cast<const Velocity*>(input[1]),\n",
            "        *static_cast<const Query<const Position&, Transform&>*>(input[2]),\n",
            "        *static_cast<Transform*>(input[3])\n",
            "    );\n",
            "\n",
            "    return 0;\n",
            "}\n",
            "\n",
            "int32_t Idle_ffi(void** input) {\n",
            "    Idle(\n",
            "    );\n",
            "\n",
            "    return 0;\n",
            "}\n",
            "\n",
            "int32_t Scan_ffi(void** input) {\n",
            "    Scan(\n",
            "        *static_cast<Query<&>*>(input[0]),\n",
            "        *static_cast<Query<const Color&>*>(input[1])\n",
            "    );\n",
            "\n",
            "    return 0;\n",
            "}\n",
            "\n",
        ]
        .concat()
    );
}

#[test]
fn system_fn_ffi_on_an_empty_catalogue() {
    assert_eq!(
        empty().gen_system_fn_ffi(),
        String::new()
    );
}

#[test]
fn systems_len_on_a_rich_catalogue() {
    assert_eq!(
        rich().gen_systems_len(),
        [
            "extern \"C\" size_t routines_len() {\n",
            "    return 4;\n",
            "}\n",
            "\n",
        ]
        .concat()
    );
}

#[test]
fn systems_len_on_an_empty_catalogue() {
    assert_eq!(
        empty().gen_systems_len(),
        [
            "extern \"C\" size_t routines_len() {\n",
            "    return 0;\n",
            "}\n",
            "\n",
        ]
        .concat()
    );
}

#[test]
fn system_is_once_on_a_rich_catalogue() {
    assert_eq!(
        rich().gen_system_is_once(),
        [
            "extern \"C\" bool system_is_once(size_t system_index) {\n",
            "    switch (system_index) {\n",
            "        case 0: return true;\n",
            "        case 1: return false;\n",
            "        case 2: return false;\n",
            "        case 3: return false;\n",
            "        default: std::abort();\n",
            "    }\n",
            "}\n",
            "\n",
        ]
        .concat()
    );
}

#[test]
fn system_is_once_on_an_empty_catalogue() {
    assert_eq!(
        empty().gen_system_is_once(),
        [
            "extern \"C\" bool system_is_once(size_t system_index) {\n",
            "    switch (system_index) {\n",
            "        default: std::abort();\n",
            "    }\n",
            "}\n",
            "\n",
        ]
        .concat()
    );
}

#[test]
fn system_fn_on_a_rich_catalogue() {
    assert_eq!(
        rich().gen_system_fn(),
        [
            "typedef int32_t (*system_fn_ptr)(void**);\n",
            "\n",
            "extern \"C\" system_fn_ptr system_fn(size_t system_index) {\n",
            "    switch (system_index) {\n",
            "        case 0: return Setup_ffi;\n",
            "        case 1: return Move_ffi;\n",
            "        case 2: return Idle_ffi;\n",
            "        case 3: return Scan_ffi;\n",
            "        default: std::abort();\n",
            "    }\n",
            "}\n",
            "\n",
        ]
        .concat()
    );
}

#[test]
fn system_fn_on_an_empty_catalogue() {
    assert_eq!(
        empty().gen_system_fn(),
        [
            "typedef int32_t (*system_fn_ptr)(void**);\n",
            "\n",
            "extern \"C\" system_fn_ptr system_fn(size_t system_index) {\n",
            "    switch (system_index) {\n",
            "        default: std::abort();\n",
            "    }\n",
            "}\n",
            "\n",
        ]
        .concat()
    );
}

#[test]
fn system_args_len_on_a_rich_catalogue() {
    assert_eq!(
        rich().gen_system_args_len(),
        [
            "extern \"C\" size_t system_args_len(size_t system_index) {\n",
            "    switch (system_index) {\n",
            "        case 0: return 2;\n",
            "        case 1: return 4;\n",
            "        case 2: return 0;\n",
            "        case 3: return 2;\n",
            "        default: std::abort();\n",
            "    }\n",
            "}\n",
            "\n",
        ]
        .concat()
    );
}

#[test]
fn system_args_len_on_an_empty_catalogue() {
    assert_eq!(
        empty().gen_system_args_len(),
        [
            "extern \"C\" size_t system_args_len(size_t system_index) {\n",
            "    switch (system_index) {\n",
            "        default: std::abort();\n",
            "    }\n",
            "}\n",
            "\n",
        ]
        .concat()
    );
}

#[test]
fn system_arg_type_on_a_rich_catalogue() {
    assert_eq!(
        rich().gen_system_arg_type(),
        [
            "extern \"C\" ArgType system_arg_type(size_t system_index, size_t arg_index) {\n",
            "    switch (system_index) {\n",
            "        case 0: switch (arg_index) {\n",
            "            case 0: return ArgTypeDataAccessMut;\n",
            "            case 1: return ArgTypeDataAccessRef;\n",
            "            default: std::abort();\n",
            "        }\n",
            "        case 1: switch (arg_index) {\n",
            "            case 0: return ArgTypeDataAccessMut;\n",
            "            case 1: return ArgTypeDataAccessRef;\n",
            "            case 2: return ArgTypeQuery;\n",
            "            case 3: return ArgTypeDataAccessMut;\n",
            "            default: std::abort();\n",
            "        }\n",
            "        case 2: switch (arg_index) {\n",
            "            default: std::abort();\n",
            "        }\n",
            "        case 3: switch (arg_index) {\n",
            "            case 0: return ArgTypeQuery;\n",
            "            case 1: return ArgTypeQuery;\n",
            "            default: std::abort();\n",
            "        }\n",
            "        default: std::abort();\n",
            "    }\n",
            "}\n",
            "\n",
        ]
        .concat()
    );
}

#[test]
fn system_arg_type_on_an_empty_catalogue() {
    assert_eq!(
        empty().gen_system_arg_type(),
        [
            "extern \"C\" ArgType system_arg_type(size_t system_index, size_t arg_index) {\n",
            "    switch (system_index) {\n",
            "        default: std::abort();\n",
            "    }\n",
            "}\n",
            "\n",
        ]
        .concat()
    );
}

#[test]
fn system_arg_component_on_a_rich_catalogue() {
    assert_eq!(
        rich().gen_system_arg_component(),
        [
            "extern \"C\" const char* system_arg_component(size_t system_index, size_t arg_index) {\n",
            "    switch (system_index) {\n",
            "        case 0: switch (arg_index) {\n",
            "            case 0: return \"game_module::Clock\";\n",
            "            case 1: return \"game_module::Settings\";\n",
            "            default: std::abort();\n",
            "        }\n",
            "        case 1: switch (arg_index) {\n",
            "            case 0: return \"game_module::Position\";\n",
            "            case 1: return \"game_module::Velocity\";\n",
            "            case 3: return \"arete_public::Transform\";\n",
            "            default: std::abort();\n",
            "        }\n",
            "        case 2: switch (arg_index) {\n",
            "            default: std::abort();\n",
            "        }\n",
            "        case 3: switch (arg_index) {\n",
            "            default: std::abort();\n",
            "        }\n",
            "        default: std::abort();\n",
            "    }\n",
            "}\n",
            "\n",
        ]
        .concat()
    );
}

#[test]
fn system_arg_component_on_an_empty_catalogue() {
    assert_eq!(
        empty().gen_system_arg_component(),
        [
            "extern \"C\" const char* system_arg_component(size_t system_index, size_t arg_index) {\n",
            "    switch (system_index) {\n",
            "        default: std::abort();\n",
            "    }\n",
            "}\n",
            "\n",
        ]
        .concat()
    );
}

#[test]
fn system_query_args_len_on_a_rich_catalogue() {
    assert_eq!(
        rich().gen_system_query_args_len(),
        [
            "extern \"C\" size_t system_query_args_len(size_t system_index, size_t arg_index) {\n",
            "    switch (system_index) {\n",
            "        case 1: switch (arg_index) {\n",
            "            case 2: return 2;\n",
            "            default: std::abort();\n",
            "        }\n",
            "        case 3: switch (arg_index) {\n",
            "            case 0: return 0;\n",
            "            case 1: return 1;\n",
            "            default: std::abort();\n",
            "        }\n",
            "        default: std::abort();\n",
            "    }\n",
            "}\n",
            "\n",
        ]
        .concat()
    );
}

#[test]
fn system_query_args_len_on_an_empty_catalogue() {
    assert_eq!(
        empty().gen_system_query_args_len(),
        [
            "extern \"C\" size_t system_query_args_len(size_t system_index, size_t arg_index) {\n",
            "    switch (system_index) {\n",
            "        default: std::abort();\n",
            "    }\n",
            "}\n",
            "\n",
        ]
        .concat()
    );
}

#[test]
fn system_query_arg_type_on_a_rich_catalogue() {
    assert_eq!(
        rich().gen_system_query_arg_type(),
        [
            "extern \"C\" QueryType system_query_arg_type(\n",
            "    size_t system_index,\n",
            "    size_t arg_index,\n",
            "    size_t query_index\n",
            ") {\n",
            "    switch (system_index) {\n",
            "        case 1: switch (arg_index) {\n",
            "            case 2: switch (query_index) {\n",
            "                case 0: return QueryTypeComponentRef;\n",
            "                case 1: return QueryTypeComponentMut;\n",
            "                default: std::abort();\n",
            "            }\n",
            "            default: std::abort();\n",
            "        }\n",
            "        case 3: switch (arg_index) {\n",
            "            case 0: switch (query_index) {\n",
            "                default: std::abort();\n",
            "            }\n",
            "            case 1: switch (query_index) {\n",
            "                case 0: return QueryTypeComponentRef;\n",
            "                default: std::abort();\n",
            "            }\n",
            "            default: std::abort();\n",
            "        }\n",
            "        default: std::abort();\n",
            "    }\n",
            "}\n",
            "\n",
        ]
        .concat()
    );
}

#[test]
fn system_query_arg_type_on_an_empty_catalogue() {
    assert_eq!(
        empty().gen_system_query_arg_type(),
        [
            "extern \"C\" QueryType system_query_arg_type(\n",
            "    size_t system_index,\n",
            "    size_t arg_index,\n",
            "    size_t query_index\n",
            ") {\n",
            "    switch (system_index) {\n",
            "        default: std::abort();\n",
            "    }\n",
            "}\n",
            "\n",
        ]
        .concat()
    );
}

#[test]
fn system_query_arg_component_on_a_rich_catalogue() {
    assert_eq!(
        rich().gen_system_query_arg_component(),
        [
            "extern \"C\" const char* system_query_arg_component(\n",
            "    size_t system_index,\n",
            "    size_t arg_index,\n",
            "    size_t query_index\n",
            ") {\n",
            "    switch (system_index) {\n",
            "        case 1: switch (arg_index) {\n",
            "            case 2: switch (query_index) {\n",
            "                case 0: return \"game_module::Position\";\n",
            "                case 1: return \"arete_public::Transform\";\n",
            "                default: std::abort();\n",
            "            }\n",
            "            default: std::abort();\n",
            "        }\n",
            "        case 3: switch (arg_index) {\n",
            "            case 0: switch (query_index) {\n",
            "                default: std::abort();\n",
            "            }\n",
            "            case 1: switch (query_index) {\n",
            "                case 0: return \"arete_public::Color\";\n",
            "                default: std::abort();\n",
            "            }\n",
            "            default: std::abort();\n",
            "        }\n",
            "        default: std::abort();\n",
            "    }\n",
            "}\n",
            "\n",
        ]
        .concat()
    );
}

#[test]
fn system_query_arg_component_on_an_empty_catalogue() {
    assert_eq!(
        empty().gen_system_query_arg_component(),
        [
            "extern \"C\" const char* system_query_arg_component(\n",
            "    size_t system_index,\n",
            "    size_t arg_index,\n",
            "    size_t query_index\n",
            ") {\n",
            "    switch (system_index) {\n",
            "        default: std::abort();\n",
            "    }\n",
            "}\n",
            "\n",
        ]
        .concat()
    );
}

#[test]
fn components_on_a_rich_catalogue() {
    assert_eq!(
        rich().gen_components(),
        [
            "enum ComponentType {\n",
            "    ComponentTypeComponent,\n",
            "    ComponentTypeResource,\n",
            "};\n",
            "\n",
            "enum ArgType {\n",
            "    ArgTypeDataAccessMut,\n",
            "    ArgTypeDataAccessRef,\n",
            "    ArgTypeQuery,\n",
            "};\n",
            "\n",
            "enum QueryType {\n",
            "    QueryTypeComponentMut,\n",
            "    QueryTypeComponentRef,\n",
            "};\n",
            "\n",
            "extern \"C\" const char* component_string_id(size_t index) {\n",
            "    switch(index) {\n",
            "        case 0: return \"game_module::Position\";\n",
            "        case 1: return \"game_module::Velocity\";\n",
            "        case 2: return \"game_module::Clock\";\n",
            "        case 3: return \"game_module::Settings\";\n",
            "        case 4: return \"game_module::Camera\";\n",
            "        default: std::abort();\n",
            "    }\n",
            "}\n",
            "\n",
            "extern \"C\" size_t component_size(const char* string_id) {\n",
            "    if (std::strcmp(string_id, \"game_module::Position\") == 0) {\n",
            "        return sizeof(Position);\n",
            "    } else if (std::strcmp(string_id, \"game_module::Velocity\") == 0) {\n",
            "        return sizeof(Velocity);\n",
            "    } else if (std::strcmp(string_id, \"game_module::Clock\") == 0) {\n",
            "        return sizeof(Clock);\n",
            "    } else if (std::strcmp(string_id, \"game_module::Settings\") == 0) {\n",
            "        return sizeof(Settings);\n",
            "    } else if (std::strcmp(string_id, \"game_module::Camera\") == 0) {\n",
            "        return sizeof(Camera);\n",
            "    } else {\n",
            "        std::abort();\n",
            "    }\n",
            "}\n",
            "\n",
            "extern \"C\" size_t component_align(const char* string_id) {\n",
            "    if (std::strcmp(string_id, \"game_module::Position\") == 0) {\n",
            "        return alignof(Position);\n",
            "    } else if (std::strcmp(string_id, \"game_module::Velocity\") == 0) {\n",
            "        return alignof(Velocity);\n",
            "    } else if (std::strcmp(string_id, \"game_module::Clock\") == 0) {\n",
            "        return alignof(Clock);\n",
            "    } else if (std::strcmp(string_id, \"game_module::Settings\") == 0) {\n",
            "        return alignof(Settings);\n",
            "    } else if (std::strcmp(string_id, \"game_module::Camera\") == 0) {\n",
            "        return alignof(Camera);\n",
            "    } else {\n",
            "        std::abort();\n",
            "    }\n",
            "}\n",
            "\n",
            "extern \"C\" ComponentType component_type(const char* string_id) {\n",
            "    if (std::strcmp(string_id, \"game_module::Position\") == 0) {\n",
            "        static_assert(std::is_standard_layout_v<Position>);\n",
            "        static_assert(std::is_trivially_copyable_v<Position>);\n",
            "        return ComponentTypeComponent;\n",
            "    } else if (std::strcmp(string_id, \"game_module::Velocity\") == 0) {\n",
            "        static_assert(std::is_standard_layout_v<Velocity>);\n",
            "        static_assert(std::is_trivially_copyable_v<Velocity>);\n",
            "        return ComponentTypeComponent;\n",
            "    } else if (std::strcmp(string_id, \"game_module::Clock\") == 0) {\n",
            "        return ComponentTypeResource;\n",
            "    } else if (std::strcmp(string_id, \"game_module::Settings\") == 0) {\n",
            "        return ComponentTypeResource;\n",
            "    } else if (std::strcmp(string_id, \"game_module::Camera\") == 0) {\n",
            "        static_assert(std::is_standard_layout_v<Camera>);\n",
            "        static_assert(std::is_trivially_copyable_v<Camera>);\n",
            "        return ComponentTypeComponent;\n",
            "    } else {\n",
            "        std::abort();\n",
            "    }\n",
            "}\n",
            "\n",
            "extern \"C\" void set_component_id(const char* string_id, ComponentId id) {\n",
            "    if (std::strcmp(string_id, \"game_module::Camera\") == 0) {\n",
            "        Component<Camera>::ID = id;\n",
            "    } else if (std::strcmp(string_id, \"game_module::Clock\") == 0) {\n",
            "        Component<Clock>::ID = id;\n",
            "    } else if (std::strcmp(string_id, \"arete_public::Color\") == 0) {\n",
            "        Component<Color>::ID = id;\n",
            "    } else if (std::strcmp(string_id, \"arete_public::DirectionalLight\") == 0) {\n",
            "        Component<DirectionalLight>::ID = id;\n",
            "    } else if (std::strcmp(string_id, \"arete_public::DynamicStaticMesh\") == 0) {\n",
            "        Component<DynamicStaticMesh>::ID = id;\n",
            "    } else if (std::strcmp(string_id, \"arete_public::PointLight\") == 0) {\n",
            "        Component<PointLight>::ID = id;\n",
            "    } else if (std::strcmp(string_id, \"game_module::Position\") == 0) {\n",
            "        Component<Position>::ID = id;\n",
            "    } else if (std::strcmp(string_id, \"game_module::Settings\") == 0) {\n",
            "        Component<Settings>::ID = id;\n",
            "    } else if (std::strcmp(string_id, \"arete_public::Transform\") == 0) {\n",
            "        Component<Transform>::ID = id;\n",
            "    } else if (std::strcmp(string_id, \"game_module::Velocity\") == 0) {\n",
            "        Component<Velocity>::ID = id;\n",
            "    }\n",
            "}\n",
            "\n",
        ]
        .concat()
    );
}

#[test]
fn components_on_an_empty_catalogue() {
    assert_eq!(
        empty().gen_components(),
        [
            "enum ComponentType {\n",
            "    ComponentTypeComponent,\n",
            "    ComponentTypeResource,\n",
            "};\n",
            "\n",
            "enum ArgType {\n",
            "    ArgTypeDataAccessMut,\n",
            "    ArgTypeDataAccessRef,\n",
            "    ArgTypeQuery,\n",
            "};\n",
            "\n",
            "enum QueryType {\n",
            "    QueryTypeComponentMut,\n",
            "    QueryTypeComponentRef,\n",
            "};\n",
            "\n",
            "extern \"C\" const char* component_string_id(size_t index) {\n",
            "    switch(index) {\n",
            "        default: std::abort();\n",
            "    }\n",
            "}\n",
            "\n",
            "extern \"C\" size_t component_size(const char* string_id) {\n",
            "    std::abort();\n",
            "}\n",
            "\n",
            "extern \"C\" size_t component_align(const char* string_id) {\n",
            "    std::abort();\n",
            "}\n",
            "\n",
            "extern \"C\" ComponentType component_type(const char* string_id) {\n",
            "    std::abort();\n",
            "}\n",
            "\n",
            "extern \"C\" void set_component_id(const char* string_id, ComponentId id) {\n",
            "    if (std::strcmp(string_id, \"arete_public::Camera\") == 0) {\n",
            "        Component<Camera>::ID = id;\n",
            "    } else if (std::strcmp(string_id, \"arete_public::Color\") == 0) {\n",
            "        Component<Color>::ID = id;\n",
            "    } else if (std::strcmp(string_id, \"arete_public::DirectionalLight\") == 0) {\n",
            "        Component<DirectionalLight>::ID = id;\n",
            "    } else if (std::strcmp(string_id, \"arete_public::DynamicStaticMesh\") == 0) {\n",
            "        Component<DynamicStaticMesh>::ID = id;\n",
            "    } else if (std::strcmp(string_id, \"arete_public::PointLight\") == 0) {\n",
            "        Component<PointLight>::ID = id;\n",
            "    } else if (std::strcmp(string_id, \"arete_public::Transform\") == 0) {\n",
            "        Component<Transform>::ID = id;\n",
            "    }\n",
            "}\n",
            "\n",
        ]
        .concat()
    );
}

#[test]
fn systems_on_a_rich_catalogue() {
    assert_eq!(
        rich().gen_systems(),
        [
            "int32_t Setup_ffi(void** input) {\n",
            "    Setup(\n",
            "        *static_cast<Clock*>(input[0]),\n",
            "        *static_cast<const Settings*>(input[1])\n",
            "    );\n",
            "\n",
            "    return 0;\n",
            "}\n",
            "\n",
            "int32_t Move_ffi(void** input) {\n",
            "    Move(\n",
            "        *static_cast<Position*>(input[0]),\n",
            "        *static_cast<const Velocity*>(input[1]),\n",
            "        *static_cast<const Query<const Position&, Transform&>*>(input[2]),\n",
            "        *static_cast<Transform*>(input[3])\n",
            "    );\n",
            "\n",
            "    return 0;\n",
            "}\n",
            "\n",
            "int32_t Idle_ffi(void** input) {\n",
            "    Idle(\n",
            "    );\n",
            "\n",
            "    return 0;\n",
            "}\n",
            "\n",
            "int32_t Scan_ffi(void** input) {\n",
            "    Scan(\n",
            "        *static_cast<Query<&>*>(input[0]),\n",
            "        *static_cast<Query<const Color&>*>(input[1])\n",
            "    );\n",
            "\n",
            "    return 0;\n",
            "}\n",
            "\n",
            "extern \"C\" size_t routines_len() {\n",
            "    return 4;\n",
            "}\n",
            "\n",
            "extern \"C\" bool system_is_once(size_t system_index) {\n",
            "    switch (system_index) {\n",
            "        case 0: return true;\n",
            "        case 1: return false;\n",
            "        case 2: return false;\n",
            "        case 3: return false;\n",
            "        default: std::abort();\n",
            "    }\n",
            "}\n",
            "\n",
            "typedef int32_t (*system_fn_ptr)(void**);\n",
            "\n",
            "extern \"C\" system_fn_ptr system_fn(size_t system_index) {\n",
            "    switch (system_index) {\n",
            "        case 0: return Setup_ffi;\n",
            "        case 1: return Move_ffi;\n",
            "        case 2: return Idle_ffi;\n",
            "        case 3: return Scan_ffi;\n",
            "        default: std::abort();\n",
            "    }\n",
            "}\n",
            "\n",
            "extern \"C\" size_t system_args_len(size_t system_index) {\n",
            "    switch (system_index) {\n",
            "        case 0: return 2;\n",
            "        case 1: return 4;\n",
            "        case 2: return 0;\n",
            "        case 3: return 2;\n",
            "        default: std::abort();\n",
            "    }\n",
            "}\n",
            "\n",
            "extern \"C\" ArgType system_arg_type(size_t system_index, size_t arg_index) {\n",
            "    switch (system_index) {\n",
            "        case 0: switch (arg_index) {\n",
            "            case 0: return ArgTypeDataAccessMut;\n",
            "            case 1: return ArgTypeDataAccessRef;\n",
            "            default: std::abort();\n",
            "        }\n",
            "        case 1: switch (arg_index) {\n",
            "            case 0: return ArgTypeDataAccessMut;\n",
            "            case 1: return ArgTypeDataAccessRef;\n",
            "            case 2: return ArgTypeQuery;\n",
            "            case 3: return ArgTypeDataAccessMut;\n",
            "            default: std::abort();\n",
            "        }\n",
            "        case 2: switch (arg_index) {\n",
            "            default: std::abort();\n",
            "        }\n",
            "        case 3: switch (arg_index) {\n",
            "            case 0: return ArgTypeQuery;\n",
            "            case 1: return ArgTypeQuery;\n",
            "            default: std::abort();\n",
            "        }\n",
            "        default: std::abort();\n",
            "    }\n",
            "}\n",
            "\n",
            "extern \"C\" const char* system_arg_component(size_t system_index, size_t arg_index) {\n",
            "    switch (system_index) {\n",
            "        case 0: switch (arg_index) {\n",
            "            case 0: return \"game_module::Clock\";\n",
            "            case 1: return \"game_module::Settings\";\n",
            "            default: std::abort();\n",
            "        }\n",
            "        case 1: switch (arg_index) {\n",
            "            case 0: return \"game_module::Position\";\n",
            "            case 1: return \"game_module::Velocity\";\n",
            "            case 3: return \"arete_public::Transform\";\n",
            "            default: std::abort();\n",
            "        }\n",
            "        case 2: switch (arg_index) {\n",
            "            default: std::abort();\n",
            "        }\n",
            "        case 3: switch (arg_index) {\n",
            "            default: std::abort();\n",
            "        }\n",
            "        default: std::abort();\n",
            "    }\n",
            "}\n",
            "\n",
            "extern \"C\" size_t system_query_args_len(size_t system_index, size_t arg_index) {\n",
            "    switch (system_index) {\n",
            "        case 1: switch (arg_index) {\n",
            "            case 2: return 2;\n",
            "            default: std::abort();\n",
            "        }\n",
            "        case 3: switch (arg_index) {\n",
            "            case 0: return 0;\n",
            "            case 1: return 1;\n",
            "            default: std::abort();\n",
            "        }\n",
            "        default: std::abort();\n",
            "    }\n",
            "}\n",
            "\n",
            "extern \"C\" QueryType system_query_arg_type(\n",
            "    size_t system_index,\n",
            "    size_t arg_index,\n",
            "    size_t query_index\n",
            ") {\n",
            "    switch (system_index) {\n",
            "        case 1: switch (arg_index) {\n",
            "            case 2: switch (query_index) {\n",
            "                case 0: return QueryTypeComponentRef;\n",
            "                case 1: return QueryTypeComponentMut;\n",
            "                default: std::abort();\n",
            "            }\n",
            "            default: std::abort();\n",
            "        }\n",
            "        case 3: switch (arg_index) {\n",
            "            case 0: switch (query_index) {\n",
            "                default: std::abort();\n",
            "            }\n",
            "            case 1: switch (query_index) {\n",
            "                case 0: return QueryTypeComponentRef;\n",
            "                default: std::abort();\n",
            "            }\n",
            "            default: std::abort();\n",
            "        }\n",
            "        default: std::abort();\n",
            "    }\n",
            "}\n",
            "\n",
            "extern \"C\" const char* system_query_arg_component(\n",
            "    size_t system_index,\n",
            "    size_t arg_index,\n",
            "    size_t query_index\n",
            ") {\n",
            "    switch (system_index) {\n",
            "        case 1: switch (arg_index) {\n",
            "            case 2: switch (query_index) {\n",
            "                case 0: return \"game_module::Position\";\n",
            "                case 1: return \"arete_public::Transform\";\n",
            "                default: std::abort();\n",
            "            }\n",
            "            default: std::abort();\n",
            "        }\n",
            "        case 3: switch (arg_index) {\n",
            "            case 0: switch (query_index) {\n",
            "                default: std::abort();\n",
            "            }\n",
            "            case 1: switch (query_index) {\n",
            "                case 0: return \"arete_public::Color\";\n",
            "                default: std::abort();\n",
            "            }\n",
            "            default: std::abort();\n",
            "        }\n",
            "        default: std::abort();\n",
            "    }\n",
            "}\n",
            "\n",
        ]
        .concat()
    );
}

#[test]
fn systems_on_an_empty_catalogue() {
    assert_eq!(
        empty().gen_systems(),
        [
            "extern \"C\" size_t routines_len() {\n",
            "    return 0;\n",
            "}\n",
            "\n",
            "extern \"C\" bool system_is_once(size_t system_index) {\n",
            "    switch (system_index) {\n",
            "        default: std::abort();\n",
            "    }\n",
            "}\n",
            "\n",
            "typedef int32_t (*system_fn_ptr)(void**);\n",
            "\n",
            "extern \"C\" system_fn_ptr system_fn(size_t system_index) {\n",
            "    switch (system_index) {\n",
            "        default: std::abort();\n",
            "    }\n",
            "}\n",
            "\n",
            "extern \"C\" size_t system_args_len(size_t system_index) {\n",
            "    switch (system_index) {\n",
            "        default: std::abort();\n",
            "    }\n",
            "}\n",
            "\n",
            "extern \"C\" ArgType system_arg_type(size_t system_index, size_t arg_index) {\n",
            "    switch (system_index) {\n",
            "        default: std::abort();\n",
            "    }\n",
            "}\n",
            "\n",
            "extern \"C\" const char* system_arg_component(size_t system_index, size_t arg_index) {\n",
            "    switch (system_index) {\n",
            "        default: std::abort();\n",
            "    }\n",
            "}\n",
            "\n",
            "extern \"C\" size_t system_query_args_len(size_t system_index, size_t arg_index) {\n",
            "    switch (system_index) {\n",
            "        default: std::abort();\n",
            "    }\n",
            "}\n",
            "\n",
            "extern \"C\" QueryType system_query_arg_type(\n",
            "    size_t system_index,\n",
            "    size_t arg_index,\n",
            "    size_t query_index\n",
            ") {\n",
            "    switch (system_index) {\n",
            "        default: std::abort();\n",
            "    }\n",
            "}\n",
            "\n",
            "extern \"C\" const char* system_query_arg_component(\n",
            "    size_t system_index,\n",
            "    size_t arg_index,\n",
            "    size_t query_index\n",
            ") {\n",
            "    switch (system_index) {\n",
            "        default: std::abort();\n",
            "    }\n",
            "}\n",
            "\n",
        ]
        .concat()
    );
}

#[test]
fn callbacks_on_a_rich_catalogue() {
    assert_eq!(
        rich().gen_callbacks(),
        [
            "enum CallbackType {\n",
            "    CallbackTypeQueryGetFn,\n",
            "    CallbackTypeQueryGetMutFn,\n",
            "    CallbackTypeQueryGetFirstFn,\n",
            "    CallbackTypeQueryGetFirstMutFn,\n",
            "    CallbackTypeQueryForEachFn,\n",
            "    CallbackTypeQueryParForEachFn,\n",
            "};\n",
            "\n",
            "const void* (*QueryGetFn)(const void*, EntityId, ComponentId);\n",
            "void* (*QueryGetMutFn)(void*, EntityId, ComponentId);\n",
            "const void* (*QueryGetFirstFn)(const void*, ComponentId);\n",
            "void* (*QueryGetFirstMutFn)(void*, ComponentId);\n",
            "void (*QueryForEachFn)(void*, QueryForEachCallback, void*);\n",
            "void (*QueryParForEachFn)(void*, QueryParForEachCallback, const void*);\n",
            "\n",
            "extern \"C\" void set_callback_fn(\n",
            "    CallbackType callback_type,\n",
            "    const void* callback\n",
            ") {\n",
            "    switch (callback_type) {\n",
            "    case CallbackTypeQueryGetFn:\n",
            "        QueryGetFn = (const void*(*)(const void*, EntityId, ComponentId))(callback);\n",
            "        break;\n",
            "    case CallbackTypeQueryGetMutFn:\n",
            "        QueryGetMutFn = (void*(*)(void*, EntityId, ComponentId))(callback);\n",
            "        break;\n",
            "    case CallbackTypeQueryGetFirstFn:\n",
            "        QueryGetFirstFn = (const void*(*)(const void*, ComponentId))(callback);\n",
            "        break;\n",
            "    case CallbackTypeQueryGetFirstMutFn:\n",
            "        QueryGetFirstMutFn = (void*(*)(void*, ComponentId))(callback);\n",
            "        break;\n",
            "    case CallbackTypeQueryForEachFn:\n",
            "        QueryForEachFn = (void(*)(void*, QueryForEachCallback, void*))(callback);\n",
            "        break;\n",
            "    case CallbackTypeQueryParForEachFn:\n",
            "        QueryParForEachFn = (void(*)(void*, QueryParForEachCallback, const void*))(callback);\n",
            "        break;\n",
            "    }\n",
            "}\n",
            "\n",
        ]
        .concat()
    );
}
